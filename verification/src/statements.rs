//! Which statements the operations send, and what they make of the replies.
//!
//! The laws speak of the requests on the connection and of the replies on record, and of
//! nothing in between.

use vstd::prelude::*;

use crate::cache::CacheView;
use crate::conn::{
    AnswerView, ConnView, RequestView, ResultSetView, SpannerType, SqlView, TransactionMode,
};
use crate::db::{CollectionLock, DbView, Step};
use crate::decimal::{decimal, natural, read_i32};
use crate::error::{ErrorView, StopView};
use crate::timestamp::{rfc3339_instant, rfc3339_text};

verus! {

/// The requests on the connection once a transaction is open.
pub open spec fn opened(db: DbView) -> Seq<RequestView> {
    if db.transaction is Some {
        db.conn.sent
    } else {
        db.conn.sent.push(RequestView::Begin(TransactionMode::ReadWrite))
    }
}

/// The transaction in which the next statement runs: the open one, or the one that the next
/// reply opens.
pub open spec fn transaction_of(db: DbView) -> Option<Option<Seq<char>>> {
    if db.transaction is Some {
        db.transaction
    } else {
        match db.conn.answers[db.conn.sent.len() as int] {
            AnswerView::Reply(reply) => Some(reply.transaction_id),
            AnswerView::Error(_) => None,
        }
    }
}

/// What is on record as the reply to the next statement, if it can be sent and has one.
pub open spec fn heard(db: DbView) -> Option<ResultSetView> {
    let n = opened(db).len() as int;
    let begun = db.transaction is Some || {
        &&& db.conn.sent.len() < db.conn.answers.len()
        &&& db.conn.answers[db.conn.sent.len() as int] is Reply
    };
    if begun && 0 <= db.statements < u64::MAX && n < db.conn.answers.len() {
        match db.conn.answers[n] {
            AnswerView::Reply(reply) => Some(reply.result),
            AnswerView::Error(_) => None,
        }
    } else {
        None
    }
}

/// The storage once one statement was sent: that text with those parameters, in the open
/// transaction, with the next number.
pub open spec fn asked(
    db: DbView,
    sql: Seq<char>,
    params: Map<Seq<char>, Seq<char>>,
    param_types: Map<Seq<char>, SpannerType>,
) -> DbView {
    DbView {
        conn: ConnView {
            sent: opened(db).push(
                RequestView::Execute(
                    SqlView {
                        sql,
                        transaction: transaction_of(db),
                        seqno: natural(db.statements as nat),
                        params,
                        param_types,
                    },
                ),
            ),
            ..db.conn
        },
        transaction: transaction_of(db),
        statements: db.statements + 1,
        ..db
    }
}

/// The storage with a collection in the cache.
pub open spec fn known(db: DbView, name: Seq<char>, id: i32) -> bool {
    db.cache.ids.contains_key(name) && db.cache.ids[name] == id
}

/// A time that can be written.
pub open spec fn has_text(millis: int) -> bool {
    -8_334_601_228_800_000 <= millis <= 8_210_266_876_799_999
}

/// What an operation fails with where there are more rows than one.
pub open spec fn too_many() -> StopView {
    StopView::Failed(ErrorView::Internal("Expected one result; got more."@))
}

/// What an operation fails with where a time cannot be written.
pub open spec fn unwritable(millis: int) -> StopView {
    StopView::Failed(ErrorView::Internal("Invalid timestamp "@ + decimal(millis)))
}

/// The time in a text: the instant that it stands for, where that is not before the epoch.
pub open spec fn time_of(text: Seq<char>) -> Result<int, StopView> {
    match rfc3339_instant(text) {
        Ok(millis) => if millis >= 0 {
            Ok(millis as int)
        } else {
            Err(StopView::Failed(ErrorView::Integrity("Invalid modified i64 (< 0)"@)))
        },
        Err(error) => Err(StopView::Failed(ErrorView::Integrity("Invalid TIMESTAMP "@ + error))),
    }
}

/// To begin a transaction sends one request of that mode, and the transaction is the reply's.
pub proof fn law_begin(db: DbView, for_write: bool)
    ensures
        ({
            let after = db.begin(for_write);
            let n = db.conn.sent.len() as int;
            &&& after.db.conn.sent == db.conn.sent.push(
                RequestView::Begin(
                    if for_write {
                        TransactionMode::ReadWrite
                    } else {
                        TransactionMode::ReadOnly
                    },
                ),
            )
            &&& n < db.conn.answers.len() ==> (db.conn.answers[n] matches AnswerView::Reply(reply)
                ==> {
                &&& after.out is Ok
                &&& after.db == (DbView {
                    conn: after.db.conn,
                    transaction: Some(reply.transaction_id),
                    ..db
                })
            })
            &&& n < db.conn.answers.len() ==> (db.conn.answers[n] matches AnswerView::Error(text)
                ==> after.out == Err::<(), StopView>(StopView::Failed(ErrorView::Spanner(text))))
            &&& n >= db.conn.answers.len() ==> after.out == Err::<(), StopView>(StopView::Waiting)
            &&& after.db.conn == (ConnView { sent: after.db.conn.sent, ..db.conn })
            &&& after.out is Err ==> after.db == (DbView { conn: after.db.conn, ..db })
        }),
{
}

/// To make a statement and send it, with whichever parameters, sends it once, in the open
/// transaction and with the next number, and gives what the reply holds. A transaction for
/// reading and writing is begun where none is open.
pub proof fn law_statement(
    db: DbView,
    sql: Seq<char>,
    params: Map<Seq<char>, Seq<char>>,
    param_types: Map<Seq<char>, SpannerType>,
    result: ResultSetView,
)
    requires
        heard(db) == Some(result),
    ensures
        db.sql(sql).out matches Ok(request) && {
            &&& request == (SqlView {
                sql,
                transaction: transaction_of(db),
                seqno: natural(db.statements as nat),
                params: Map::empty(),
                param_types: Map::empty(),
            })
            &&& db.sql(sql).db.execute(SqlView { params, param_types, ..request }) == (Step {
                db: asked(db, sql, params, param_types),
                out: Ok::<ResultSetView, StopView>(result),
            })
        },
{
    assert(asked(db, sql, params, param_types).conn == db.sql(sql).db.conn.send(
        RequestView::Execute(
            SqlView {
                sql,
                transaction: transaction_of(db),
                seqno: natural(db.statements as nat),
                params,
                param_types,
            },
        ),
    ));
}

/// No statement is made once the numbers are used up, and nothing is sent.
pub proof fn law_numbers_used_up(db: DbView, sql: Seq<char>)
    requires
        db.transaction is Some,
        db.statements >= u64::MAX,
    ensures
        db.sql(sql) == (Step { db, out: Err::<SqlView, StopView>(StopView::Fault) }),
{
}

/// The reply to a request is the one on record at its place: an error there is what the
/// statement fails with, and without any the operation waits.
pub proof fn law_reply_at_its_place(db: DbView, request: SqlView)
    ensures
        ({
            let n = db.conn.sent.len() as int;
            let after = db.execute(request);
            &&& after.db == (DbView {
                conn: ConnView {
                    sent: db.conn.sent.push(RequestView::Execute(request)),
                    ..db.conn
                },
                ..db
            })
            &&& n >= db.conn.answers.len() ==> after.out == Err::<ResultSetView, StopView>(
                StopView::Waiting,
            )
            &&& n < db.conn.answers.len() ==> after.out == (match db.conn.answers[n] {
                AnswerView::Reply(reply) => Ok::<ResultSetView, StopView>(reply.result),
                AnswerView::Error(text) => Err(StopView::Failed(ErrorView::Spanner(text))),
            })
        }),
{
}

/// A commit names the transaction that is open, and where none is, one is begun first; so does
/// a rollback. What comes out is what the reply says.
pub proof fn law_end_of_a_transaction(db: DbView)
    requires
        heard(DbView { statements: 0, ..db }) is Some,
    ensures
        db.rollback() == (Step {
            db: DbView {
                conn: ConnView {
                    sent: opened(db).push(RequestView::Rollback(transaction_of(db)->Some_0)),
                    ..db.conn
                },
                transaction: transaction_of(db),
                ..db
            },
            out: Ok::<(), StopView>(()),
        }),
        !db.conn.use_test_transactions ==> db.commit() == (Step {
            db: DbView {
                conn: ConnView {
                    sent: opened(db).push(RequestView::Commit(transaction_of(db)->Some_0)),
                    ..db.conn
                },
                transaction: transaction_of(db),
                ..db
            },
            out: Ok::<(), StopView>(()),
        }),
        db.conn.use_test_transactions ==> db.commit() == (Step {
            db,
            out: Ok::<(), StopView>(()),
        }),
{
}

/// To look a collection up that is not in the cache asks for the id under that very name. No row
/// is no collection; the number in the row is its id, and from then on in the cache.
pub proof fn law_lookup(db: DbView, name: Seq<char>, result: ResultSetView)
    requires
        !db.cache.ids.contains_key(name),
        heard(db) == Some(result),
    ensures
        ({
            let after = db.get_collection_id(name);
            let sent = asked(
                db,
                "SELECT collectionid FROM collections WHERE name = @name"@,
                Map::empty().insert("name"@, name),
                Map::empty(),
            );
            &&& after.db.conn == sent.conn
            &&& result.rows.len() == 0 ==> after == (Step {
                db: sent,
                out: Err::<i32, StopView>(StopView::Failed(ErrorView::CollectionNotFound)),
            })
            &&& result.rows.len() == 1 && result.rows[0].len() > 0 ==> (match read_i32(
                result.rows[0][0],
            ) {
                Ok(id) => after == (Step {
                    db: DbView {
                        cache: CacheView {
                            ids: db.cache.ids.insert(name, id),
                            names: db.cache.names.insert(id, name),
                        },
                        ..sent
                    },
                    out: Ok::<i32, StopView>(id),
                }),
                Err(error) => after == (Step {
                    db: sent,
                    out: Err::<i32, StopView>(StopView::Failed(ErrorView::Integrity(error))),
                }),
            })
            &&& result.rows.len() == 1 && result.rows[0].len() == 0 ==> after == (Step {
                db: sent,
                out: Err::<i32, StopView>(StopView::Fault),
            })
            &&& result.rows.len() > 1 ==> after == (Step {
                db: sent,
                out: Err::<i32, StopView>(too_many()),
            })
        }),
{
    law_statement(
        db,
        "SELECT collectionid FROM collections WHERE name = @name"@,
        Map::empty().insert("name"@, name),
        Map::empty(),
        result,
    );
}

/// A collection in the cache is not asked for.
pub proof fn law_cached_lookup(db: DbView, name: Seq<char>, id: i32)
    requires
        known(db, name, id),
    ensures
        db.get_collection_id(name) == (Step { db, out: Ok::<i32, StopView>(id) }),
        db.get_or_create_collection_id(name) == (Step { db, out: Ok::<i32, StopView>(id) }),
{
}

/// To look up or create a collection is to look it up, and to create it exactly where there is
/// none of that name.
pub proof fn law_lookup_or_creation(db: DbView, name: Seq<char>)
    ensures
        ({
            let found = db.get_collection_id(name);
            let missing = found.out == Err::<i32, StopView>(
                StopView::Failed(ErrorView::CollectionNotFound),
            );
            &&& !missing ==> db.get_or_create_collection_id(name) == found
            &&& missing ==> db.get_or_create_collection_id(name) == found.db.create_collection(name)
        }),
{
}

/// To create a collection asks for the greatest id and then inserts the name under the next one,
/// which is 100 at least.
pub proof fn law_creation(db: DbView, name: Seq<char>, first: ResultSetView, max: i32)
    requires
        heard(db) == Some(first),
        first.rows.len() == 1,
        first.rows[0].len() > 0,
        read_i32(first.rows[0][0]) == Ok::<i32, Seq<char>>(max),
        max < i32::MAX,
        heard(
            asked(
                db,
                "SELECT COALESCE(MAX(collectionid), 1) from collections"@,
                Map::empty(),
                Map::empty(),
            ),
        ) is Some,
    ensures
        ({
            let id: int = if max < 99 {
                100
            } else {
                max + 1
            };
            let after = db.create_collection(name);
            let inserted = asked(
                asked(
                    db,
                    "SELECT COALESCE(MAX(collectionid), 1) from collections"@,
                    Map::empty(),
                    Map::empty(),
                ),
                "INSERT INTO collections (collectionid, name) VALUES (@collectionid, @name)"@,
                Map::empty().insert("name"@, name).insert("collectionid"@, decimal(id)),
                Map::empty(),
            );
            after == (Step {
                db: DbView {
                    cache: CacheView {
                        ids: db.cache.ids.insert(name, id as i32),
                        names: db.cache.names.insert(id as i32, name),
                    },
                    ..inserted
                },
                out: Ok::<i32, StopView>(id as i32),
            })
        }),
{
    let sql = "SELECT COALESCE(MAX(collectionid), 1) from collections"@;
    law_statement(db, sql, Map::empty(), Map::empty(), first);
    let next = asked(db, sql, Map::empty(), Map::empty());
    let id: int = if max < 99 {
        100
    } else {
        max + 1
    };
    law_statement(
        next,
        "INSERT INTO collections (collectionid, name) VALUES (@collectionid, @name)"@,
        Map::empty().insert("name"@, name).insert("collectionid"@, decimal(id)),
        Map::empty(),
        heard(next)->Some_0,
    );
}

/// A collection is not created without a greatest id that can be read and has a next one: the
/// name is not inserted.
pub proof fn law_no_creation(db: DbView, name: Seq<char>, first: ResultSetView)
    requires
        heard(db) == Some(first),
        first.rows.len() != 1 || first.rows[0].len() == 0 || read_i32(first.rows[0][0]) is Err
            || read_i32(first.rows[0][0]) == Ok::<i32, Seq<char>>(i32::MAX),
    ensures
        db.create_collection(name).out == Err::<i32, StopView>(
            if first.rows.len() == 0 {
                StopView::Failed(ErrorView::Internal("No rows matched the given query."@))
            } else if first.rows.len() > 1 {
                too_many()
            } else if first.rows[0].len() == 0 {
                StopView::Fault
            } else {
                match read_i32(first.rows[0][0]) {
                    Ok(_) => StopView::Fault,
                    Err(error) => StopView::Failed(ErrorView::Integrity(error)),
                }
            },
        ),
        db.create_collection(name).db == asked(
            db,
            "SELECT COALESCE(MAX(collectionid), 1) from collections"@,
            Map::empty(),
            Map::empty(),
        ),
{
    law_statement(
        db,
        "SELECT COALESCE(MAX(collectionid), 1) from collections"@,
        Map::empty(),
        Map::empty(),
        first,
    );
}

/// A collection whose time the session keeps is not asked for.
pub proof fn law_kept_time(db: DbView, user: u32, name: Seq<char>, id: i32)
    requires
        known(db, name, id),
        db.modified.contains_key((user, id)),
    ensures
        db.get_collection_timestamp(user, name) == (Step {
            db,
            out: Ok::<int, StopView>(db.modified[(user, id)]),
        }),
{
}

/// What the session does not know of a collection's time is asked of the database, for that user
/// and that collection; the time is the one in the row, and without a row there is none.
pub proof fn law_collection_time(
    db: DbView,
    user: u32,
    name: Seq<char>,
    id: i32,
    result: ResultSetView,
)
    requires
        known(db, name, id),
        !db.modified.contains_key((user, id)),
        heard(db) == Some(result),
    ensures
        ({
            let after = db.get_collection_timestamp(user, name);
            &&& after.db == asked(
                db,
                "SELECT last_modified FROM user_collections WHERE userid=@userid AND collection=@collectionid"@,
                Map::empty().insert("userid"@, natural(user as nat)).insert(
                    "collectionid"@,
                    decimal(id as int),
                ),
                Map::empty(),
            )
            &&& result.rows.len() == 0 ==> after.out == Err::<int, StopView>(
                StopView::Failed(ErrorView::CollectionNotFound),
            )
            &&& result.rows.len() == 1 && result.rows[0].len() > 0 ==> after.out == time_of(
                result.rows[0][0],
            )
            &&& result.rows.len() == 1 && result.rows[0].len() == 0 ==> after.out == Err::<
                int,
                StopView,
            >(StopView::Fault)
            &&& result.rows.len() > 1 ==> after.out == Err::<int, StopView>(too_many())
        }),
{
    law_statement(
        db,
        "SELECT last_modified FROM user_collections WHERE userid=@userid AND collection=@collectionid"@,
        Map::empty().insert("userid"@, natural(user as nat)).insert(
            "collectionid"@,
            decimal(id as int),
        ),
        Map::empty(),
        result,
    );
}

/// To touch a collection looks whether the user has it, and then sets its time to the session's:
/// by an update where it is there, and by an insertion where it is not.
pub proof fn law_touch(db: DbView, user: u32, id: i32, result: ResultSetView)
    requires
        has_text(db.timestamp),
        heard(db) == Some(result),
        result.rows.len() <= 1,
        heard(
            asked(
                db,
                "SELECT 1 as count FROM user_collections WHERE userid = @userid AND collection = @collectionid;"@,
                Map::empty().insert("userid"@, natural(user as nat)).insert(
                    "collectionid"@,
                    decimal(id as int),
                ),
                Map::empty(),
            ),
        ) is Some,
    ensures
        ({
            let row = Map::empty().insert("userid"@, natural(user as nat)).insert(
                "collectionid"@,
                decimal(id as int),
            );
            let looked = asked(
                db,
                "SELECT 1 as count FROM user_collections WHERE userid = @userid AND collection = @collectionid;"@,
                row,
                Map::empty(),
            );
            let now = rfc3339_text(db.timestamp as i64);
            &&& db.touch_collection(user, id).out == Ok::<int, StopView>(db.timestamp)
            &&& result.rows.len() == 1 ==> db.touch_collection(user, id).db == asked(
                looked,
                "UPDATE user_collections SET last_modified=@last_modified WHERE userid=@userid AND collection=@collectionid"@,
                row.insert("last_modified"@, now),
                Map::empty().insert("last_modified"@, SpannerType::Timestamp),
            )
            &&& result.rows.len() == 0 ==> db.touch_collection(user, id).db == asked(
                looked,
                "INSERT INTO user_collections (userid, collection, last_modified) VALUES (@userid, @collectionid, @modified)"@,
                row.insert("modified"@, now),
                Map::empty().insert("modified"@, SpannerType::Timestamp),
            )
        }),
{
    let row = Map::empty().insert("userid"@, natural(user as nat)).insert(
        "collectionid"@,
        decimal(id as int),
    );
    let sql = "SELECT 1 as count FROM user_collections WHERE userid = @userid AND collection = @collectionid;"@;
    let now = rfc3339_text(db.timestamp as i64);
    law_statement(db, sql, row, Map::empty(), result);
    let looked = asked(db, sql, row, Map::empty());
    let last = heard(looked)->Some_0;
    law_statement(
        looked,
        "UPDATE user_collections SET last_modified=@last_modified WHERE userid=@userid AND collection=@collectionid"@,
        row.insert("last_modified"@, now),
        Map::empty().insert("last_modified"@, SpannerType::Timestamp),
        last,
    );
    law_statement(
        looked,
        "INSERT INTO user_collections (userid, collection, last_modified) VALUES (@userid, @collectionid, @modified)"@,
        row.insert("modified"@, now),
        Map::empty().insert("modified"@, SpannerType::Timestamp),
        last,
    );
}

/// A collection is not touched where the user has it twice, nor at a time that cannot be
/// written: nothing is sent but the look.
pub proof fn law_no_touch(db: DbView, user: u32, id: i32, result: ResultSetView)
    requires
        heard(db) == Some(result),
        result.rows.len() > 1 || (!has_text(db.timestamp) && db.statements < u64::MAX - 1),
    ensures
        ({
            let after = db.touch_collection(user, id);
            &&& after.out == Err::<int, StopView>(
                if result.rows.len() > 1 {
                    too_many()
                } else {
                    unwritable(db.timestamp)
                },
            )
            &&& after.db.conn == asked(
                db,
                "SELECT 1 as count FROM user_collections WHERE userid = @userid AND collection = @collectionid;"@,
                Map::empty().insert("userid"@, natural(user as nat)).insert(
                    "collectionid"@,
                    decimal(id as int),
                ),
                Map::empty(),
            ).conn
        }),
{
    law_statement(
        db,
        "SELECT 1 as count FROM user_collections WHERE userid = @userid AND collection = @collectionid;"@,
        Map::empty().insert("userid"@, natural(user as nat)).insert(
            "collectionid"@,
            decimal(id as int),
        ),
        Map::empty(),
        result,
    );
}

/// The storage once a transaction was begun in that mode, and its reply came.
pub open spec fn begun(db: DbView, mode: TransactionMode) -> DbView {
    DbView {
        conn: ConnView { sent: db.conn.sent.push(RequestView::Begin(mode)), ..db.conn },
        transaction: match db.conn.answers[db.conn.sent.len() as int] {
            AnswerView::Reply(reply) => Some(reply.transaction_id),
            AnswerView::Error(_) => None,
        },
        ..db
    }
}

/// To take a lock begins a transaction of its mode and asks for the row of that user's
/// collection; then the collection is locked, and the second cell of the row, if there is one,
/// is the time that the session keeps for it.
pub proof fn law_locking(
    db: DbView,
    user: u32,
    name: Seq<char>,
    id: i32,
    for_write: bool,
    result: ResultSetView,
)
    requires
        known(db, name, id),
        db.locks.contains_key((user, id)) ==> for_write && db.locks[(user, id)] is Write,
        db.conn.sent.len() < db.conn.answers.len(),
        db.conn.answers[db.conn.sent.len() as int] is Reply,
        heard(
            begun(
                db,
                if for_write {
                    TransactionMode::ReadWrite
                } else {
                    TransactionMode::ReadOnly
                },
            ),
        ) == Some(result),
    ensures
        ({
            let mode = if for_write {
                TransactionMode::ReadWrite
            } else {
                TransactionMode::ReadOnly
            };
            let lock = if for_write {
                CollectionLock::Write
            } else {
                CollectionLock::Read
            };
            let after = if for_write {
                db.lock_for_write(user, name)
            } else {
                db.lock_for_read(user, name)
            };
            let sent = asked(
                begun(db, mode),
                "SELECT CURRENT_TIMESTAMP() as now, last_modified FROM user_collections WHERE userid=@userid AND collection=@collectionid"@,
                Map::empty().insert("userid"@, natural(user as nat)).insert(
                    "collectionid"@,
                    decimal(id as int),
                ),
                Map::empty(),
            );
            &&& after.db.conn == sent.conn
            &&& result.rows.len() == 0 ==> after == (Step {
                db: DbView { locks: db.locks.insert((user, id), lock), ..sent },
                out: Ok::<(), StopView>(()),
            })
            &&& result.rows.len() == 1 && result.rows[0].len() > 1 ==> after == (match time_of(
                result.rows[0][1],
            ) {
                Ok(modified) => Step {
                    db: DbView {
                        locks: db.locks.insert((user, id), lock),
                        modified: db.modified.insert((user, id), modified),
                        ..sent
                    },
                    out: Ok::<(), StopView>(()),
                },
                Err(stop) => Step { db: sent, out: Err(stop) },
            })
            &&& result.rows.len() == 1 && result.rows[0].len() <= 1 ==> after == (Step {
                db: sent,
                out: Err::<(), StopView>(StopView::Fault),
            })
            &&& result.rows.len() > 1 ==> after == (Step {
                db: sent,
                out: Err::<(), StopView>(too_many()),
            })
        }),
{
    let mode = if for_write {
        TransactionMode::ReadWrite
    } else {
        TransactionMode::ReadOnly
    };
    law_begin(db, for_write);
    assert(db.begin(for_write).db == begun(db, mode));
    law_statement(
        begun(db, mode),
        "SELECT CURRENT_TIMESTAMP() as now, last_modified FROM user_collections WHERE userid=@userid AND collection=@collectionid"@,
        Map::empty().insert("userid"@, natural(user as nat)).insert(
            "collectionid"@,
            decimal(id as int),
        ),
        Map::empty(),
        result,
    );
}

} // verus!
