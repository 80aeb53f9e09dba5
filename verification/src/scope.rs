//! What the statements of an operation are about: whose rows they name, and that reading does
//! not write.

use vstd::prelude::*;
use vstd::string::*;

use crate::collections::new_collection_id;
use crate::conn::{RequestView, RowView, SpannerType, SqlView, TransactionMode};
use crate::db::{CollectionLock, DbView};
use crate::decimal::{decimal, natural};
use crate::error::{message, StopView};
use crate::names::{collect, number_row, stamp_row};
use crate::pages::{id_param, law_ids_are_bound};
use crate::read::{time_param, written, QueryView};
use crate::results::PostView;
use crate::rows::{cell, i32_cell, must, one};
use crate::timestamp::text_of;
use crate::write::PutView;

verus! {

/// A text that starts with `SELECT`.
pub open spec fn selects(sql: Seq<char>) -> bool {
    "SELECT"@.is_prefix_of(sql)
}

/// A request that names no user but that one. One for reading begins a transaction or runs a
/// `SELECT`.
pub open spec fn fits(request: RequestView, reading: bool, userid: Seq<char>) -> bool {
    match request {
        RequestView::Begin(_) => true,
        RequestView::Execute(sql) => {
            &&& reading ==> selects(sql.sql)
            &&& sql.params.contains_key("userid"@) ==> sql.params["userid"@] == userid
        },
        RequestView::Commit(_) => !reading,
        RequestView::Rollback(_) => !reading,
    }
}

/// Only such requests were sent.
#[verifier::opaque]
pub open spec fn within(db: DbView, later: DbView, reading: bool, userid: Seq<char>) -> bool {
    &&& db.conn.sent.is_prefix_of(later.conn.sent)
    &&& forall|i: int|
        db.conn.sent.len() <= i < later.conn.sent.len() ==> fits(
            #[trigger] later.conn.sent[i],
            reading,
            userid,
        )
}

proof fn lemma_nothing(db: DbView, later: DbView, reading: bool, userid: Seq<char>)
    requires
        later.conn.sent == db.conn.sent,
    ensures
        within(db, later, reading, userid),
{
    reveal(within);
}

proof fn lemma_both(a: DbView, b: DbView, c: DbView, reading: bool, userid: Seq<char>)
    requires
        within(a, b, reading, userid),
        within(b, c, reading, userid),
    ensures
        within(a, c, reading, userid),
{
    reveal(within);
    assert(a.conn.sent.is_prefix_of(c.conn.sent));
    assert forall|i: int| a.conn.sent.len() <= i < c.conn.sent.len() implies fits(
        #[trigger] c.conn.sent[i],
        reading,
        userid,
    ) by {
        if i < b.conn.sent.len() {
            assert(b.conn.sent[i] == c.conn.sent[i]);
        }
    }
}

proof fn lemma_send(
    db: DbView,
    later: DbView,
    request: RequestView,
    reading: bool,
    userid: Seq<char>,
)
    requires
        later.conn.sent == db.conn.sent.push(request),
        fits(request, reading, userid),
    ensures
        within(db, later, reading, userid),
{
    reveal(within);
}

/// The texts of the statements that read.
proof fn lemma_selects()
    ensures
        selects(
            "SELECT collectionid FROM collections WHERE name = @name"@,
        ),
        selects(
            "SELECT COALESCE(MAX(collectionid), 1) from collections"@,
        ),
        selects(
            "SELECT last_modified FROM user_collections WHERE userid=@userid AND collection=@collectionid"@,
        ),
        selects(
            "SELECT 1 as count FROM user_collections WHERE userid = @userid AND collection = @collectionid;"@,
        ),
        selects(
            "SELECT CURRENT_TIMESTAMP() as now, last_modified FROM user_collections WHERE userid=@userid AND collection=@collectionid"@,
        ),
        selects(
            "SELECT collectionid, name FROM collections"@,
        ),
        selects(
            "SELECT collection, last_modified FROM user_collections WHERE userid=@userid"@,
        ),
        selects(
            "SELECT collection, COUNT(collection) FROM bso WHERE userid=@userid AND ttl > CURRENT_TIMESTAMP() GROUP BY collection"@,
        ),
        selects(
            "SELECT collection, SUM(LENGTH(payload)) FROM bso WHERE userid=@userid AND ttl > CURRENT_TIMESTAMP() GROUP BY collection"@,
        ),
        selects(
            "SELECT COALESCE(MAX(last_modified), TIMESTAMP '0001-01-01T00:00:00Z') FROM user_collections WHERE userid=@userid"@,
        ),
        selects(
            "SELECT SUM(LENGTH(payload)) FROM bso WHERE userid=@userid AND ttl > CURRENT_TIMESTAMP() GROUP BY userid"@,
        ),
        selects(
            "SELECT id, modified, payload, COALESCE(sortindex, 0), ttl FROM bso WHERE userid = @userid AND collection = @collectionid AND ttl > @timestamp"@,
        ),
        selects(
            "SELECT id, modified, payload, coalesce(sortindex, 0), ttl FROM bso WHERE userid=@userid AND collection=@collectionid AND id=@bsoid AND ttl > @timestamp"@,
        ),
        selects(
            "SELECT modified FROM bso WHERE collection=@collectionid AND userid=@userid AND id=@bsoid AND ttl>@ttl"@,
        ),
{
    reveal_strlit("SELECT");
    assert(selects(
        "SELECT collectionid FROM collections WHERE name = @name"@,
    )) by {
        reveal_strlit(
            "SELECT collectionid FROM collections WHERE name = @name",
        );
    }
    assert(selects(
        "SELECT COALESCE(MAX(collectionid), 1) from collections"@,
    )) by {
        reveal_strlit(
            "SELECT COALESCE(MAX(collectionid), 1) from collections",
        );
    }
    assert(selects(
        "SELECT last_modified FROM user_collections WHERE userid=@userid AND collection=@collectionid"@,
    )) by {
        reveal_strlit(
            "SELECT last_modified FROM user_collections WHERE userid=@userid AND collection=@collectionid",
        );
    }
    assert(selects(
        "SELECT 1 as count FROM user_collections WHERE userid = @userid AND collection = @collectionid;"@,
    )) by {
        reveal_strlit(
            "SELECT 1 as count FROM user_collections WHERE userid = @userid AND collection = @collectionid;",
        );
    }
    assert(selects(
        "SELECT CURRENT_TIMESTAMP() as now, last_modified FROM user_collections WHERE userid=@userid AND collection=@collectionid"@,
    )) by {
        reveal_strlit(
            "SELECT CURRENT_TIMESTAMP() as now, last_modified FROM user_collections WHERE userid=@userid AND collection=@collectionid",
        );
    }
    assert(selects(
        "SELECT collectionid, name FROM collections"@,
    )) by {
        reveal_strlit(
            "SELECT collectionid, name FROM collections",
        );
    }
    assert(selects(
        "SELECT collection, last_modified FROM user_collections WHERE userid=@userid"@,
    )) by {
        reveal_strlit(
            "SELECT collection, last_modified FROM user_collections WHERE userid=@userid",
        );
    }
    assert(selects(
        "SELECT collection, COUNT(collection) FROM bso WHERE userid=@userid AND ttl > CURRENT_TIMESTAMP() GROUP BY collection"@,
    )) by {
        reveal_strlit(
            "SELECT collection, COUNT(collection) FROM bso WHERE userid=@userid AND ttl > CURRENT_TIMESTAMP() GROUP BY collection",
        );
    }
    assert(selects(
        "SELECT collection, SUM(LENGTH(payload)) FROM bso WHERE userid=@userid AND ttl > CURRENT_TIMESTAMP() GROUP BY collection"@,
    )) by {
        reveal_strlit(
            "SELECT collection, SUM(LENGTH(payload)) FROM bso WHERE userid=@userid AND ttl > CURRENT_TIMESTAMP() GROUP BY collection",
        );
    }
    assert(selects(
        "SELECT COALESCE(MAX(last_modified), TIMESTAMP '0001-01-01T00:00:00Z') FROM user_collections WHERE userid=@userid"@,
    )) by {
        reveal_strlit(
            "SELECT COALESCE(MAX(last_modified), TIMESTAMP '0001-01-01T00:00:00Z') FROM user_collections WHERE userid=@userid",
        );
    }
    assert(selects(
        "SELECT SUM(LENGTH(payload)) FROM bso WHERE userid=@userid AND ttl > CURRENT_TIMESTAMP() GROUP BY userid"@,
    )) by {
        reveal_strlit(
            "SELECT SUM(LENGTH(payload)) FROM bso WHERE userid=@userid AND ttl > CURRENT_TIMESTAMP() GROUP BY userid",
        );
    }
    assert(selects(
        "SELECT id, modified, payload, COALESCE(sortindex, 0), ttl FROM bso WHERE userid = @userid AND collection = @collectionid AND ttl > @timestamp"@,
    )) by {
        reveal_strlit(
            "SELECT id, modified, payload, COALESCE(sortindex, 0), ttl FROM bso WHERE userid = @userid AND collection = @collectionid AND ttl > @timestamp",
        );
    }
    assert(selects(
        "SELECT id, modified, payload, coalesce(sortindex, 0), ttl FROM bso WHERE userid=@userid AND collection=@collectionid AND id=@bsoid AND ttl > @timestamp"@,
    )) by {
        reveal_strlit(
            "SELECT id, modified, payload, coalesce(sortindex, 0), ttl FROM bso WHERE userid=@userid AND collection=@collectionid AND id=@bsoid AND ttl > @timestamp",
        );
    }
    assert(selects(
        "SELECT modified FROM bso WHERE collection=@collectionid AND userid=@userid AND id=@bsoid AND ttl>@ttl"@,
    )) by {
        reveal_strlit(
            "SELECT modified FROM bso WHERE collection=@collectionid AND userid=@userid AND id=@bsoid AND ttl>@ttl",
        );
    }
}

/// The names of the parameters, of which only one names a user.
proof fn lemma_no_user_in()
    ensures
        "name"@ != "userid"@,
        "collectionid"@ != "userid"@,
        "bsoid"@ != "userid"@,
        "timestamp"@ != "userid"@,
        "ttl"@ != "userid"@,
        "older"@ != "userid"@,
        "newer"@ != "userid"@,
        "modified"@ != "userid"@,
        "last_modified"@ != "userid"@,
        "payload"@ != "userid"@,
        "sortindex"@ != "userid"@,
        "expiry"@ != "userid"@,
        forall|i: nat| #[trigger] id_param(i) != "userid"@,
{
    reveal_strlit("name");
    reveal_strlit("userid");
    reveal_strlit("collectionid");
    reveal_strlit("bsoid");
    reveal_strlit("timestamp");
    reveal_strlit("ttl");
    reveal_strlit("older");
    reveal_strlit("newer");
    reveal_strlit("modified");
    reveal_strlit("last_modified");
    reveal_strlit("payload");
    reveal_strlit("sortindex");
    reveal_strlit("expiry");
    reveal_strlit("arg");
    assert("expiry"@[0] != "userid"@[0]);
    assert forall|i: nat| #[trigger] id_param(i) != "userid"@ by {
        assert(id_param(i)[0] == 'a');
        assert("userid"@[0] == 'u');
    }
}

proof fn lemma_begin_within(db: DbView, for_write: bool, reading: bool, userid: Seq<char>)
    ensures
        within(db, db.begin(for_write).db, reading, userid),
{
    let mode = if for_write {
        TransactionMode::ReadWrite
    } else {
        TransactionMode::ReadOnly
    };
    lemma_send(db, db.begin(for_write).db, RequestView::Begin(mode), reading, userid);
}

proof fn lemma_sql_within(db: DbView, sql: Seq<char>, reading: bool, userid: Seq<char>)
    ensures
        within(db, db.sql(sql).db, reading, userid),
        db.sql(sql).out matches Ok(request) ==> request.sql == sql && request.params
            == Map::<Seq<char>, Seq<char>>::empty(),
{
    if db.transaction is Some {
        lemma_nothing(db, db.sql(sql).db, reading, userid);
    } else {
        lemma_begin_within(db, true, reading, userid);
        lemma_nothing(db.begin(true).db, db.sql(sql).db, reading, userid);
        lemma_both(db, db.begin(true).db, db.sql(sql).db, reading, userid);
    }
}

proof fn lemma_execute_within(db: DbView, request: SqlView, reading: bool, userid: Seq<char>)
    requires
        fits(RequestView::Execute(request), reading, userid),
    ensures
        within(db, db.execute(request).db, reading, userid),
        db.find(request).db == db.execute(request).db,
{
    lemma_send(db, db.execute(request).db, RequestView::Execute(request), reading, userid);
}

proof fn lemma_collection_sql_within(
    db: DbView,
    sql: Seq<char>,
    userid: Seq<char>,
    id: i32,
    reading: bool,
)
    ensures
        within(db, db.collection_sql(sql, userid, id).db, reading, userid),
        db.collection_sql(sql, userid, id).out matches Ok(request) ==> request.sql == sql
            && request.params["userid"@] == userid,
{
    lemma_sql_within(db, sql, reading, userid);
    lemma_no_user_in();
    let asked = db.sql(sql);
    assert(db.collection_sql(sql, userid, id).db == asked.db);
}

proof fn lemma_get_collection_id_within(
    db: DbView,
    name: Seq<char>,
    reading: bool,
    userid: Seq<char>,
)
    ensures
        within(db, db.get_collection_id(name).db, reading, userid),
{
    lemma_selects();
    lemma_no_user_in();
    lemma_nothing(db, db, reading, userid);
    let sql = "SELECT collectionid FROM collections WHERE name = @name"@;
    let asked = db.sql(sql);
    lemma_sql_within(db, sql, reading, userid);
    if asked.out is Ok {
        let request = asked.out->Ok_0.with("name"@, name);
        lemma_execute_within(asked.db, request, reading, userid);
        lemma_both(db, asked.db, asked.db.execute(request).db, reading, userid);
    }
    let found = db.get_collection_id(name);
    if !db.cache.ids.contains_key(name) && asked.out is Ok {
        let got = asked.db.execute(asked.out->Ok_0.with("name"@, name)).db;
        lemma_nothing(got, found.db, reading, userid);
        lemma_both(db, got, found.db, reading, userid);
    }
}

proof fn lemma_insert_collection_within(db: DbView, id: i32, name: Seq<char>, userid: Seq<char>)
    ensures
        within(db, db.insert_collection(id, name).db, false, userid),
{
    lemma_no_user_in();
    let sql = "INSERT INTO collections (collectionid, name) VALUES (@collectionid, @name)"@;
    let asked = db.sql(sql);
    lemma_sql_within(db, sql, false, userid);
    if asked.out is Ok {
        let request = asked.out->Ok_0.with("name"@, name).with(
            "collectionid"@,
            decimal(id as int),
        );
        lemma_execute_within(asked.db, request, false, userid);
        lemma_both(db, asked.db, asked.db.execute(request).db, false, userid);
    }
    if asked.out is Ok {
        let request = asked.out->Ok_0.with("name"@, name).with("collectionid"@, decimal(id as int));
        let done = db.insert_collection(id, name);
        lemma_nothing(asked.db.execute(request).db, done.db, false, userid);
        lemma_both(db, asked.db.execute(request).db, done.db, false, userid);
    }
}

proof fn lemma_create_collection_within(db: DbView, name: Seq<char>, userid: Seq<char>)
    ensures
        within(db, db.create_collection(name).db, false, userid),
{
    let sql = "SELECT COALESCE(MAX(collectionid), 1) from collections"@;
    let asked = db.sql(sql);
    lemma_sql_within(db, sql, false, userid);
    if asked.out is Ok {
        let request = asked.out->Ok_0;
        lemma_execute_within(asked.db, request, false, userid);
        lemma_both(db, asked.db, asked.db.execute(request).db, false, userid);
    }
    if asked.out is Ok {
        let got = asked.db.execute(asked.out->Ok_0);
        if got.out is Ok {
            if let Ok(row) = one(got.out->Ok_0.rows) {
                if let Ok(max) = i32_cell(row, 0) {
                    if max != i32::MAX {
                        let id = new_collection_id(max);
                        lemma_insert_collection_within(got.db, id, name, userid);
                        lemma_both(
                            db,
                            got.db,
                            got.db.insert_collection(id, name).db,
                            false,
                            userid,
                        );
                    }
                }
            }
        }
    }
}

proof fn lemma_get_or_create_within(db: DbView, name: Seq<char>, userid: Seq<char>)
    ensures
        within(db, db.get_or_create_collection_id(name).db, false, userid),
{
    lemma_get_collection_id_within(db, name, false, userid);
    let found = db.get_collection_id(name);
    lemma_create_collection_within(found.db, name, userid);
    lemma_both(db, found.db, found.db.create_collection(name).db, false, userid);
}

proof fn lemma_run_within(db: DbView, sql: Seq<char>, userid: Seq<char>, id: i32, reading: bool)
    requires
        reading ==> selects(sql),
    ensures
        within(db, db.run(sql, userid, id).db, reading, userid),
{
    lemma_collection_sql_within(db, sql, userid, id, reading);
    let asked = db.collection_sql(sql, userid, id);
    if asked.out is Ok {
        lemma_execute_within(asked.db, asked.out->Ok_0, reading, userid);
        lemma_both(db, asked.db, asked.db.execute(asked.out->Ok_0).db, reading, userid);
    }
}

proof fn lemma_look_within(db: DbView, sql: Seq<char>, userid: Seq<char>, id: i32, reading: bool)
    requires
        reading ==> selects(sql),
    ensures
        within(db, db.look(sql, userid, id).db, reading, userid),
{
    lemma_collection_sql_within(db, sql, userid, id, reading);
    let asked = db.collection_sql(sql, userid, id);
    if asked.out is Ok {
        lemma_execute_within(asked.db, asked.out->Ok_0, reading, userid);
        lemma_both(db, asked.db, asked.db.execute(asked.out->Ok_0).db, reading, userid);
    }
}

/// Asking when a collection was last modified reads, and names no other user.
pub proof fn law_get_collection_timestamp_reads(db: DbView, user: u32, name: Seq<char>)
    ensures
        within(db, db.get_collection_timestamp(user, name).db, true, natural(user as nat)),
{
    let userid = natural(user as nat);
    let sql = "SELECT last_modified FROM user_collections WHERE userid=@userid AND collection=@collectionid"@;
    lemma_selects();
    lemma_get_collection_id_within(db, name, true, userid);
    let found = db.get_collection_id(name);
    if found.out is Ok {
        let id = found.out->Ok_0;
        let next = found.db.look(sql, userid, id);
        lemma_look_within(found.db, sql, userid, id, true);
        lemma_both(db, found.db, next.db, true, userid);
    }
}

proof fn lemma_take_lock_within(db: DbView, user: u32, id: i32, lock: CollectionLock, reading: bool)
    ensures
        within(db, db.take_lock(user, id, lock).db, reading, natural(user as nat)),
{
    let userid = natural(user as nat);
    let sql = "SELECT CURRENT_TIMESTAMP() as now, last_modified FROM user_collections WHERE userid=@userid AND collection=@collectionid"@;
    lemma_selects();
    let begun = db.begin(lock is Write);
    lemma_begin_within(db, lock is Write, reading, userid);
    if begun.out is Ok {
        let looked = begun.db.look(sql, userid, id);
        lemma_look_within(begun.db, sql, userid, id, reading);
        lemma_both(db, begun.db, looked.db, reading, userid);
        let done = db.take_lock(user, id, lock);
        lemma_nothing(looked.db, done.db, reading, userid);
        lemma_both(db, looked.db, done.db, reading, userid);
    }
}

/// Locking for reading reads, and names no other user.
pub proof fn law_lock_for_read_reads(db: DbView, user: u32, name: Seq<char>)
    ensures
        within(db, db.lock_for_read(user, name).db, true, natural(user as nat)),
{
    let userid = natural(user as nat);
    lemma_get_collection_id_within(db, name, true, userid);
    let found = db.get_collection_id(name);
    let id = if found.out is Ok {
        found.out->Ok_0
    } else {
        0
    };
    lemma_take_lock_within(found.db, user, id, CollectionLock::Read, true);
    lemma_both(
        db,
        found.db,
        found.db.take_lock(user, id, CollectionLock::Read).db,
        true,
        userid,
    );
}

/// Locking for writing names no other user.
pub proof fn law_lock_for_write_scope(db: DbView, user: u32, name: Seq<char>)
    ensures
        within(db, db.lock_for_write(user, name).db, false, natural(user as nat)),
{
    let userid = natural(user as nat);
    lemma_get_or_create_within(db, name, userid);
    let found = db.get_or_create_collection_id(name);
    if found.out is Ok {
        let id = found.out->Ok_0;
        lemma_take_lock_within(found.db, user, id, CollectionLock::Write, false);
        lemma_both(
            db,
            found.db,
            found.db.take_lock(user, id, CollectionLock::Write).db,
            false,
            userid,
        );
    }
}

proof fn lemma_learn_names_within(
    db: DbView,
    uncached: Set<i32>,
    names: Map<i32, Seq<char>>,
    rows: Seq<RowView>,
)
    ensures
        db.learn_names(uncached, names, rows).db.conn == db.conn,
    decreases rows.len(),
{
    if rows.len() > 0 {
        if let (Ok(id), Ok(name)) = (must(i32_cell(rows[0], 0)), cell(rows[0], 1)) {
            if uncached.contains(id) {
                lemma_learn_names_within(
                    db.cache_put(id, name),
                    uncached,
                    names.insert(id, name),
                    rows.drop_first(),
                );
            } else {
                lemma_learn_names_within(db, uncached, names, rows.drop_first());
            }
        }
    }
}

proof fn lemma_load_names_within(db: DbView, ids: Set<i32>, userid: Seq<char>)
    ensures
        within(db, db.load_collection_names(ids).db, true, userid),
{
    let cached = db.cache.names.restrict(ids);
    let uncached = ids.difference(db.cache.names.dom());
    let sql = "SELECT collectionid, name FROM collections"@;
    lemma_selects();
    lemma_nothing(db, db, true, userid);
    let asked = db.sql(sql);
    lemma_sql_within(db, sql, true, userid);
    if asked.out is Ok {
        let request = asked.out->Ok_0;
        lemma_execute_within(asked.db, request, true, userid);
        lemma_both(db, asked.db, asked.db.execute(request).db, true, userid);
    }
    if asked.out is Ok {
        let got = asked.db.execute(asked.out->Ok_0);
        if got.out is Ok {
            let rows = got.out->Ok_0.rows;
            let learned = got.db.learn_names(uncached, cached, rows);
            lemma_learn_names_within(got.db, uncached, cached, rows);
            lemma_nothing(got.db, learned.db, true, userid);
            lemma_both(db, got.db, learned.db, true, userid);
        }
    }
}

proof fn lemma_by_collection_within<V>(
    db: DbView,
    sql: Seq<char>,
    user: u32,
    read: spec_fn(RowView) -> Result<(i32, V), StopView>,
)
    requires
        selects(sql),
    ensures
        within(db, db.by_collection(sql, user, read).db, true, natural(user as nat)),
{
    let userid = natural(user as nat);
    let asked = db.sql(sql);
    lemma_sql_within(db, sql, true, userid);
    if asked.out is Ok {
        let request = asked.out->Ok_0.with("userid"@, userid);
        let got = asked.db.execute(request);
        lemma_execute_within(asked.db, request, true, userid);
        lemma_both(db, asked.db, got.db, true, userid);
        if got.out is Ok {
            if let Ok(by_id) = collect(got.out->Ok_0.rows, read) {
                lemma_load_names_within(got.db, by_id.dom(), userid);
                lemma_both(
                    db,
                    got.db,
                    got.db.load_collection_names(by_id.dom()).db,
                    true,
                    userid,
                );
            }
        }
    }
}

/// Asking when the collections were last modified reads, and names no other user.
pub proof fn law_get_collection_timestamps_reads(db: DbView, user: u32)
    ensures
        within(db, db.get_collection_timestamps(user).db, true, natural(user as nat)),
{
    lemma_selects();
    lemma_by_collection_within(
        db,
        "SELECT collection, last_modified FROM user_collections WHERE userid=@userid"@,
        user,
        |row: RowView| stamp_row(row),
    );
}

/// Counting the objects of the collections reads, and names no other user.
pub proof fn law_get_collection_counts_reads(db: DbView, user: u32)
    ensures
        within(db, db.get_collection_counts(user).db, true, natural(user as nat)),
{
    lemma_selects();
    lemma_by_collection_within(
        db,
        "SELECT collection, COUNT(collection) FROM bso WHERE userid=@userid AND ttl > CURRENT_TIMESTAMP() GROUP BY collection"@,
        user,
        |row: RowView| number_row(row),
    );
}

/// Asking how much the collections hold reads, and names no other user.
pub proof fn law_get_collection_usage_reads(db: DbView, user: u32)
    ensures
        within(db, db.get_collection_usage(user).db, true, natural(user as nat)),
{
    lemma_selects();
    lemma_by_collection_within(
        db,
        "SELECT collection, SUM(LENGTH(payload)) FROM bso WHERE userid=@userid AND ttl > CURRENT_TIMESTAMP() GROUP BY collection"@,
        user,
        |row: RowView| number_row(row),
    );
}

/// Asking when the storage was last modified reads, and names no other user.
pub proof fn law_get_storage_timestamp_reads(db: DbView, user: u32)
    ensures
        within(db, db.get_storage_timestamp(user).db, true, natural(user as nat)),
{
    let userid = natural(user as nat);
    let sql = "SELECT COALESCE(MAX(last_modified), TIMESTAMP '0001-01-01T00:00:00Z') FROM user_collections WHERE userid=@userid"@;
    lemma_selects();
    let asked = db.sql(sql);
    lemma_sql_within(db, sql, true, userid);
    if asked.out is Ok {
        let request = asked.out->Ok_0.with("userid"@, userid);
        lemma_execute_within(asked.db, request, true, userid);
        lemma_both(db, asked.db, asked.db.execute(request).db, true, userid);
    }
}

/// Asking how much the storage holds reads, and names no other user.
pub proof fn law_get_storage_usage_reads(db: DbView, user: u32)
    ensures
        within(db, db.get_storage_usage(user).db, true, natural(user as nat)),
{
    let userid = natural(user as nat);
    let sql = "SELECT SUM(LENGTH(payload)) FROM bso WHERE userid=@userid AND ttl > CURRENT_TIMESTAMP() GROUP BY userid"@;
    lemma_selects();
    let asked = db.sql(sql);
    lemma_sql_within(db, sql, true, userid);
    if asked.out is Ok {
        let request = asked.out->Ok_0.with("userid"@, userid);
        lemma_execute_within(asked.db, request, true, userid);
        lemma_both(db, asked.db, asked.db.execute(request).db, true, userid);
    }
}

/// Binding the parameters of a query leaves its text alone, and names that user.
proof fn lemma_bind_names_user(
    query: QueryView,
    request: SqlView,
    user: i32,
    id: i32,
    now: Seq<char>,
)
    ensures
        query.bind_all(request, user, id, now).sql == request.sql,
        query.bind_all(request, user, id, now).params["userid"@] == decimal(user as int),
{
    lemma_no_user_in();
    let first = request.with("userid"@, decimal(user as int)).with(
        "collectionid"@,
        decimal(id as int),
    ).with("timestamp"@, now).typed("timestamp"@, SpannerType::Timestamp);
    let second = time_param(
        time_param(first, "older"@, written(query.older)),
        "newer"@,
        written(query.newer),
    );
    law_ids_are_bound(second, query.ids);
    assert(query.bind_all(request, user, id, now).params["userid"@] == second.params["userid"@]);
}

/// Getting a page of objects reads, and names no other user.
pub proof fn law_get_bsos_reads(db: DbView, user: i32, name: Seq<char>, query: QueryView)
    ensures
        within(db, db.get_bsos(user, name, query).db, true, decimal(user as int)),
        db.get_bso_ids(user, name, query).db == db.get_bsos(user, name, query).db,
{
    let userid = decimal(user as int);
    lemma_selects();
    lemma_get_collection_id_within(db, name, true, userid);
    let found = db.get_collection_id(name);
    if found.out is Ok {
        let id = found.out->Ok_0;
        if let Ok(now) = text_of(found.db.timestamp) {
            let sql = query.sql();
            assert(selects(sql)) by {
                reveal_strlit("SELECT");
                reveal_strlit(
                    "SELECT id, modified, payload, COALESCE(sortindex, 0), ttl FROM bso WHERE userid = @userid AND collection = @collectionid AND ttl > @timestamp",
                );
            }
            let asked = found.db.sql(sql);
            lemma_sql_within(found.db, sql, true, userid);
            lemma_both(db, found.db, asked.db, true, userid);
            if asked.out is Ok {
                let request = query.bind_all(asked.out->Ok_0, user, id, now);
                lemma_bind_names_user(query, asked.out->Ok_0, user, id, now);
                lemma_execute_within(asked.db, request, true, userid);
                lemma_both(db, asked.db, asked.db.execute(request).db, true, userid);
            }
        }
    }
}

proof fn lemma_find_bso_within(
    db: DbView,
    sql: Seq<char>,
    userid: Seq<char>,
    id: i32,
    bso: Seq<char>,
    param: Seq<char>,
)
    requires
        selects(sql),
        param != "userid"@,
    ensures
        within(db, db.find_bso(sql, userid, id, bso, param).db, true, userid),
{
    lemma_no_user_in();
    let asked = db.collection_sql(sql, userid, id);
    lemma_collection_sql_within(db, sql, userid, id, true);
    if asked.out is Ok {
        if let Ok(now) = text_of(asked.db.timestamp) {
            let request = asked.out->Ok_0.with("bsoid"@, bso).with(param, now).typed(
                param,
                SpannerType::Timestamp,
            );
            lemma_execute_within(asked.db, request, true, userid);
            lemma_both(db, asked.db, asked.db.execute(request).db, true, userid);
        }
    }
}

/// Getting an object reads, and names no other user.
pub proof fn law_get_bso_reads(db: DbView, user: u64, name: Seq<char>, bso: Seq<char>)
    ensures
        within(db, db.get_bso(user, name, bso).db, true, natural(user as nat)),
{
    let userid = natural(user as nat);
    let sql = "SELECT id, modified, payload, coalesce(sortindex, 0), ttl FROM bso WHERE userid=@userid AND collection=@collectionid AND id=@bsoid AND ttl > @timestamp"@;
    lemma_selects();
    lemma_no_user_in();
    lemma_get_collection_id_within(db, name, true, userid);
    let found = db.get_collection_id(name);
    if found.out is Ok {
        let id = found.out->Ok_0;
        let next = found.db.find_bso(sql, userid, id, bso, "timestamp"@);
        lemma_find_bso_within(found.db, sql, userid, id, bso, "timestamp"@);
        lemma_both(db, found.db, next.db, true, userid);
    }
}

/// Asking when an object was modified reads, and names no other user.
pub proof fn law_get_bso_timestamp_reads(db: DbView, user: u32, name: Seq<char>, bso: Seq<char>)
    ensures
        within(db, db.get_bso_timestamp(user, name, bso).db, true, natural(user as nat)),
{
    let userid = natural(user as nat);
    let sql = "SELECT modified FROM bso WHERE collection=@collectionid AND userid=@userid AND id=@bsoid AND ttl>@ttl"@;
    lemma_selects();
    lemma_no_user_in();
    lemma_get_collection_id_within(db, name, true, userid);
    let found = db.get_collection_id(name);
    if found.out is Ok {
        let id = found.out->Ok_0;
        let next = found.db.find_bso(sql, userid, id, bso, "ttl"@);
        lemma_find_bso_within(found.db, sql, userid, id, bso, "ttl"@);
        lemma_both(db, found.db, next.db, true, userid);
    }
}

proof fn lemma_write_modified_within(
    db: DbView,
    sql: Seq<char>,
    param: Seq<char>,
    userid: Seq<char>,
    id: i32,
)
    requires
        param != "userid"@,
    ensures
        within(db, db.write_modified(sql, param, userid, id).db, false, userid),
{
    let asked = db.collection_sql(sql, userid, id);
    lemma_collection_sql_within(db, sql, userid, id, false);
    if asked.out is Ok {
        if let Ok(text) = text_of(asked.db.timestamp) {
            let request = asked.out->Ok_0.with(param, text).typed(param, SpannerType::Timestamp);
            lemma_execute_within(asked.db, request, false, userid);
            lemma_both(db, asked.db, asked.db.execute(request).db, false, userid);
        }
    }
}

/// Touching a collection names no other user.
pub proof fn law_touch_collection_scope(db: DbView, user: u32, id: i32)
    ensures
        within(db, db.touch_collection(user, id).db, false, natural(user as nat)),
{
    let userid = natural(user as nat);
    let sql = "SELECT 1 as count FROM user_collections WHERE userid = @userid AND collection = @collectionid;"@;
    let update = "UPDATE user_collections SET last_modified=@last_modified WHERE userid=@userid AND collection=@collectionid"@;
    let insert = "INSERT INTO user_collections (userid, collection, last_modified) VALUES (@userid, @collectionid, @modified)"@;
    lemma_no_user_in();
    let looked = db.look(sql, userid, id);
    lemma_look_within(db, sql, userid, id, false);
    if looked.out is Ok {
        let updated = looked.db.write_modified(update, "last_modified"@, userid, id);
        let inserted = looked.db.write_modified(insert, "modified"@, userid, id);
        lemma_write_modified_within(looked.db, update, "last_modified"@, userid, id);
        lemma_write_modified_within(looked.db, insert, "modified"@, userid, id);
        lemma_both(db, looked.db, updated.db, false, userid);
        lemma_both(db, looked.db, inserted.db, false, userid);
    }
}

/// Deleting the storage names no other user.
pub proof fn law_delete_storage_scope(db: DbView, user: u32)
    ensures
        within(db, db.delete_storage(user).db, false, natural(user as nat)),
{
    let userid = natural(user as nat);
    let sql = "DELETE FROM user_collections WHERE userid=@userid"@;
    let asked = db.sql(sql);
    lemma_sql_within(db, sql, false, userid);
    if asked.out is Ok {
        let request = asked.out->Ok_0.with("userid"@, userid);
        lemma_execute_within(asked.db, request, false, userid);
        lemma_both(db, asked.db, asked.db.execute(request).db, false, userid);
    }
}

/// What reads also names no other user where more is allowed.
proof fn lemma_reads_are_allowed(db: DbView, later: DbView, userid: Seq<char>)
    requires
        within(db, later, true, userid),
    ensures
        within(db, later, false, userid),
{
    reveal(within);
}

proof fn lemma_delete_entry_within(db: DbView, user: u32, id: i32)
    ensures
        within(db, db.delete_entry(user, id).db, false, natural(user as nat)),
{
    let userid = natural(user as nat);
    let sql = "DELETE FROM user_collections WHERE userid=@userid AND collection=@collectionid"@;
    let ran = db.run(sql, userid, id);
    lemma_run_within(db, sql, userid, id, false);
    if ran.out is Ok {
        let next = ran.db.get_storage_timestamp(user);
        law_get_storage_timestamp_reads(ran.db, user);
        lemma_reads_are_allowed(ran.db, next.db, userid);
        lemma_both(db, ran.db, next.db, false, userid);
    }
}

proof fn lemma_delete_objects_within(db: DbView, user: u32, id: i32)
    ensures
        within(db, db.delete_objects(user, id).db, false, natural(user as nat)),
{
    let userid = natural(user as nat);
    let sql = "DELETE FROM bso WHERE userid=@userid AND collection=@collectionid"@;
    let ran = db.run(sql, userid, id);
    lemma_run_within(db, sql, userid, id, false);
    if ran.out is Ok {
        lemma_delete_entry_within(ran.db, user, id);
        lemma_both(db, ran.db, ran.db.delete_entry(user, id).db, false, userid);
    }
}

/// Deleting a collection names no other user.
pub proof fn law_delete_collection_scope(db: DbView, user: u32, name: Seq<char>)
    ensures
        within(db, db.delete_collection(user, name).db, false, natural(user as nat)),
{
    let userid = natural(user as nat);
    lemma_get_collection_id_within(db, name, false, userid);
    let found = db.get_collection_id(name);
    if found.out is Ok {
        let id = found.out->Ok_0;
        let next = found.db.delete_objects(user, id);
        lemma_delete_objects_within(found.db, user, id);
        lemma_both(db, found.db, next.db, false, userid);
    }
}

proof fn lemma_with_bso_within(
    db: DbView,
    sql: Seq<char>,
    userid: Seq<char>,
    id: i32,
    bso: Seq<char>,
)
    ensures
        within(db, db.collection_sql(sql, userid, id).db, false, userid),
        db.collection_sql(sql, userid, id).out matches Ok(request) ==> within(
            db,
            db.collection_sql(sql, userid, id).db.execute(request.with("bsoid"@, bso)).db,
            false,
            userid,
        ),
{
    lemma_no_user_in();
    lemma_collection_sql_within(db, sql, userid, id, false);
    let asked = db.collection_sql(sql, userid, id);
    if asked.out is Ok {
        let request = asked.out->Ok_0.with("bsoid"@, bso);
        lemma_execute_within(asked.db, request, false, userid);
        lemma_both(db, asked.db, asked.db.execute(request).db, false, userid);
    }
}

proof fn lemma_touch_and_delete_within(db: DbView, user: u32, id: i32, bso: Seq<char>)
    ensures
        within(db, db.touch_and_delete(user, id, bso).db, false, natural(user as nat)),
{
    let userid = natural(user as nat);
    let sql = "DELETE FROM bso WHERE userid=@userid AND collection=@collectionid AND id=@bsoid"@;
    let touched = db.touch_collection(user, id);
    law_touch_collection_scope(db, user, id);
    if touched.out is Ok {
        let next = touched.db.delete_row(user, id, bso, touched.out->Ok_0);
        lemma_with_bso_within(touched.db, sql, userid, id, bso);
        lemma_both(db, touched.db, next.db, false, userid);
    }
}

/// Deleting an object names no other user.
pub proof fn law_delete_bso_scope(db: DbView, user: u32, name: Seq<char>, bso: Seq<char>)
    ensures
        within(db, db.delete_bso(user, name, bso).db, false, natural(user as nat)),
{
    let userid = natural(user as nat);
    lemma_get_collection_id_within(db, name, false, userid);
    let found = db.get_collection_id(name);
    if found.out is Ok {
        let id = found.out->Ok_0;
        let next = found.db.touch_and_delete(user, id, bso);
        lemma_touch_and_delete_within(found.db, user, id, bso);
        lemma_both(db, found.db, next.db, false, userid);
    }
}

proof fn lemma_delete_each_within(
    db: DbView,
    user: u32,
    name: Seq<char>,
    id: i32,
    bsos: Seq<Seq<char>>,
)
    ensures
        within(db, db.delete_each(user, name, id, bsos).db, false, natural(user as nat)),
    decreases bsos.len(),
{
    let userid = natural(user as nat);
    lemma_nothing(db, db, false, userid);
    if bsos.len() > 0 {
        let sql = "SELECT 1 FROM bso WHERE userid=@userid AND collection=@collectionid AND id=@bsoid"@;
        lemma_with_bso_within(db, sql, userid, id, bsos[0]);
        let looked = db.look_for(user, id, bsos[0]);
        if looked.out is Ok {
            let first = looked.db.delete_bso(user, name, bsos[0]);
            law_delete_bso_scope(looked.db, user, name, bsos[0]);
            lemma_both(db, looked.db, first.db, false, userid);
            if first.out is Ok {
                let rest = first.db.delete_each(user, name, id, bsos.drop_first());
                lemma_delete_each_within(first.db, user, name, id, bsos.drop_first());
                lemma_both(db, first.db, rest.db, false, userid);
            }
        }
    }
}

proof fn lemma_delete_all_within(
    db: DbView,
    user: u32,
    name: Seq<char>,
    id: i32,
    bsos: Seq<Seq<char>>,
)
    ensures
        within(db, db.delete_all(user, name, id, bsos).db, false, natural(user as nat)),
{
    let userid = natural(user as nat);
    let each = db.delete_each(user, name, id, bsos);
    lemma_delete_each_within(db, user, name, id, bsos);
    if each.out is Ok {
        let touched = each.db.touch_collection(user, id);
        law_touch_collection_scope(each.db, user, id);
        lemma_both(db, each.db, touched.db, false, userid);
    }
}

/// Deleting objects names no other user.
pub proof fn law_delete_bsos_scope(db: DbView, user: u32, name: Seq<char>, bsos: Seq<Seq<char>>)
    ensures
        within(db, db.delete_bsos(user, name, bsos).db, false, natural(user as nat)),
{
    let userid = natural(user as nat);
    lemma_get_collection_id_within(db, name, false, userid);
    let found = db.get_collection_id(name);
    if found.out is Ok {
        let id = found.out->Ok_0;
        let next = found.db.delete_all(user, name, id, bsos);
        lemma_delete_all_within(found.db, user, name, id, bsos);
        lemma_both(db, found.db, next.db, false, userid);
    }
}

proof fn lemma_update_bso_within(db: DbView, userid: Seq<char>, id: i32, bso: PutView)
    ensures
        within(db, db.update_bso(userid, id, bso).db, false, userid),
{
    lemma_no_user_in();
    lemma_nothing(db, db, false, userid);
    let asked = db.collection_sql(bso.update_sql(), userid, id);
    lemma_collection_sql_within(db, bso.update_sql(), userid, id, false);
    if let (Ok(expiry), Ok(modified)) = (bso.new_expiry_text(db.timestamp), text_of(db.timestamp)) {
        if asked.out is Ok {
            let request = bso.bind_update(asked.out->Ok_0, modified, expiry);
            lemma_execute_within(asked.db, request, false, userid);
            lemma_both(db, asked.db, asked.db.execute(request).db, false, userid);
        }
    }
}

proof fn lemma_insert_bso_within(db: DbView, userid: Seq<char>, id: i32, bso: PutView)
    ensures
        within(db, db.insert_bso(userid, id, bso).db, false, userid),
{
    lemma_no_user_in();
    lemma_nothing(db, db, false, userid);
    let asked = db.collection_sql(bso.insert_sql(), userid, id);
    lemma_collection_sql_within(db, bso.insert_sql(), userid, id, false);
    if let (Ok(expiry), Ok(modified)) = (
        text_of(bso.first_expiry(db.timestamp)),
        text_of(db.timestamp),
    ) {
        if asked.out is Ok {
            let request = bso.bind_insert(asked.out->Ok_0, modified, expiry);
            lemma_execute_within(asked.db, request, false, userid);
            lemma_both(db, asked.db, asked.db.execute(request).db, false, userid);
        }
    }
}

proof fn lemma_write_bso_within(db: DbView, userid: Seq<char>, id: i32, bso: PutView)
    ensures
        within(db, db.write_bso(userid, id, bso).db, false, userid),
{
    let sql = "SELECT 1 as count FROM bso WHERE userid = @userid AND collection = @collectionid AND id = @bsoid"@;
    let asked = db.collection_sql(sql, userid, id);
    lemma_with_bso_within(db, sql, userid, id, bso.id);
    if asked.out is Ok {
        let looked = asked.db.find(asked.out->Ok_0.with("bsoid"@, bso.id));
        if looked.out is Ok {
            lemma_update_bso_within(looked.db, userid, id, bso);
            lemma_insert_bso_within(looked.db, userid, id, bso);
            lemma_both(db, looked.db, looked.db.update_bso(userid, id, bso).db, false, userid);
            lemma_both(db, looked.db, looked.db.insert_bso(userid, id, bso).db, false, userid);
        }
    }
}

proof fn lemma_touch_and_write_within(db: DbView, user: u64, id: i32, bso: PutView)
    requires
        user <= u32::MAX,
    ensures
        within(db, db.touch_and_write(user, id, bso).db, false, natural(user as nat)),
{
    let userid = natural(user as nat);
    let touched = db.touch_collection(user as u32, id);
    law_touch_collection_scope(db, user as u32, id);
    if touched.out is Ok {
        let wrote = touched.db.write_bso(userid, id, bso);
        lemma_write_bso_within(touched.db, userid, id, bso);
        lemma_both(db, touched.db, wrote.db, false, userid);
    }
}

/// Writing an object names no other user. (A collection is touched under the low 32 bits of
/// the user's id.)
pub proof fn law_put_bso_scope(db: DbView, user: u64, name: Seq<char>, bso: PutView)
    requires
        user <= u32::MAX,
    ensures
        within(db, db.put_bso(user, name, bso).db, false, natural(user as nat)),
{
    let userid = natural(user as nat);
    lemma_get_or_create_within(db, name, userid);
    let found = db.get_or_create_collection_id(name);
    if found.out is Ok {
        let id = found.out->Ok_0;
        let next = found.db.touch_and_write(user, id, bso);
        lemma_touch_and_write_within(found.db, user, id, bso);
        lemma_both(db, found.db, next.db, false, userid);
    }
}

proof fn lemma_post_each_within(
    db: DbView,
    user: u64,
    name: Seq<char>,
    bsos: Seq<PutView>,
    result: PostView,
)
    requires
        user <= u32::MAX,
    ensures
        within(db, db.post_each(user, name, bsos, result).db, false, natural(user as nat)),
    decreases bsos.len(),
{
    let userid = natural(user as nat);
    lemma_nothing(db, db, false, userid);
    if bsos.len() > 0 {
        let put = db.put_bso(user, name, bsos[0]);
        law_put_bso_scope(db, user, name, bsos[0]);
        let written = PostView { success: result.success.push(bsos[0].id), ..result };
        lemma_post_each_within(put.db, user, name, bsos.drop_first(), written);
        lemma_both(
            db,
            put.db,
            put.db.post_each(user, name, bsos.drop_first(), written).db,
            false,
            userid,
        );
        if let Err(StopView::Failed(error)) = put.out {
            let refused = PostView {
                failed: result.failed.insert(bsos[0].id, message(error)),
                ..result
            };
            lemma_post_each_within(put.db, user, name, bsos.drop_first(), refused);
            lemma_both(
                db,
                put.db,
                put.db.post_each(user, name, bsos.drop_first(), refused).db,
                false,
                userid,
            );
        }
    }
}

proof fn lemma_post_all_within(
    db: DbView,
    user: u64,
    name: Seq<char>,
    id: i32,
    bsos: Seq<PutView>,
    failed: Map<Seq<char>, Seq<char>>,
)
    requires
        user <= u32::MAX,
    ensures
        within(db, db.post_all(user, name, id, bsos, failed).db, false, natural(user as nat)),
{
    let userid = natural(user as nat);
    let start = PostView { modified: db.timestamp, success: Seq::empty(), failed };
    let each = db.post_each(user, name, bsos, start);
    lemma_post_each_within(db, user, name, bsos, start);
    if each.out is Ok {
        let touched = each.db.touch_collection(user as u32, id);
        law_touch_collection_scope(each.db, user as u32, id);
        lemma_both(db, each.db, touched.db, false, userid);
    }
}

/// Writing objects names no other user. (A collection is touched under the low 32 bits of the
/// user's id.)
pub proof fn law_post_bsos_scope(
    db: DbView,
    user: u64,
    name: Seq<char>,
    bsos: Seq<PutView>,
    failed: Map<Seq<char>, Seq<char>>,
)
    requires
        user <= u32::MAX,
    ensures
        within(db, db.post_bsos(user, name, bsos, failed).db, false, natural(user as nat)),
{
    let userid = natural(user as nat);
    lemma_get_or_create_within(db, name, userid);
    let found = db.get_or_create_collection_id(name);
    if found.out is Ok {
        let id = found.out->Ok_0;
        let next = found.db.post_all(user, name, id, bsos, failed);
        lemma_post_all_within(found.db, user, name, id, bsos, failed);
        lemma_both(db, found.db, next.db, false, userid);
    }
}

} // verus!
