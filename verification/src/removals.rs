//! Which statements delete, and which give the figures of a user's storage.

use vstd::prelude::*;

use crate::conn::ResultSetView;
use crate::db::{DbView, Step};
use crate::decimal::{decimal, natural, read_i64};
use crate::error::{ErrorView, StopView};
use crate::statements::{asked, heard, known, law_statement, time_of, too_many};
use crate::stored::row_of;

verus! {

/// To delete a user's storage sends one statement, which names that user.
pub proof fn law_delete_storage(db: DbView, user: u32)
    requires
        heard(db) is Some,
    ensures
        db.delete_storage(user) == (Step {
            db: asked(
                db,
                "DELETE FROM user_collections WHERE userid=@userid"@,
                Map::empty().insert("userid"@, natural(user as nat)),
                Map::empty(),
            ),
            out: Ok::<(), StopView>(()),
        }),
{
    law_statement(
        db,
        "DELETE FROM user_collections WHERE userid=@userid"@,
        Map::empty().insert("userid"@, natural(user as nat)),
        Map::empty(),
        heard(db)->Some_0,
    );
}

/// When a user's storage was modified is asked of the database for that user: it is the time in
/// the row, and 0 where there is none or where no collection has a time.
pub proof fn law_storage_timestamp(db: DbView, user: u32, result: ResultSetView)
    requires
        heard(db) == Some(result),
    ensures
        ({
            let after = db.get_storage_timestamp(user);
            &&& after.db == asked(
                db,
                "SELECT COALESCE(MAX(last_modified), TIMESTAMP '0001-01-01T00:00:00Z') FROM user_collections WHERE userid=@userid"@,
                Map::empty().insert("userid"@, natural(user as nat)),
                Map::empty(),
            )
            &&& result.rows.len() == 0 ==> after.out == Ok::<int, StopView>(0)
            &&& result.rows.len() > 1 ==> after.out == Err::<int, StopView>(too_many())
            &&& result.rows.len() == 1 && result.rows[0].len() > 0 ==> after.out == (
            if result.rows[0][0] == "0001-01-01T00:00:00Z"@ {
                Ok(0int)
            } else {
                time_of(result.rows[0][0])
            })
            &&& result.rows.len() == 1 && result.rows[0].len() == 0 ==> after.out == Err::<
                int,
                StopView,
            >(StopView::Fault)
        }),
{
    law_statement(
        db,
        "SELECT COALESCE(MAX(last_modified), TIMESTAMP '0001-01-01T00:00:00Z') FROM user_collections WHERE userid=@userid"@,
        Map::empty().insert("userid"@, natural(user as nat)),
        Map::empty(),
        result,
    );
}

/// How much payload a user has is asked of the database for that user: it is the number in the
/// row, and 0 where there is none.
pub proof fn law_storage_usage(db: DbView, user: u32, result: ResultSetView)
    requires
        heard(db) == Some(result),
    ensures
        ({
            let after = db.get_storage_usage(user);
            &&& after.db == asked(
                db,
                "SELECT SUM(LENGTH(payload)) FROM bso WHERE userid=@userid AND ttl > CURRENT_TIMESTAMP() GROUP BY userid"@,
                Map::empty().insert("userid"@, natural(user as nat)),
                Map::empty(),
            )
            &&& result.rows.len() == 0 ==> after.out == Ok::<u64, StopView>(0)
            &&& result.rows.len() > 1 ==> after.out == Err::<u64, StopView>(too_many())
            &&& result.rows.len() == 1 && result.rows[0].len() == 0 ==> after.out == Err::<
                u64,
                StopView,
            >(StopView::Fault)
            &&& result.rows.len() == 1 && result.rows[0].len() > 0 ==> (match read_i64(
                result.rows[0][0],
            ) {
                Ok(usage) => after.out matches Ok(bytes) && bytes == (if usage >= 0 {
                    usage as int
                } else {
                    usage + 0x1_0000_0000_0000_0000
                }),
                Err(error) => after.out == Err::<u64, StopView>(
                    StopView::Failed(ErrorView::Integrity(error)),
                ),
            })
        }),
{
    law_statement(
        db,
        "SELECT SUM(LENGTH(payload)) FROM bso WHERE userid=@userid AND ttl > CURRENT_TIMESTAMP() GROUP BY userid"@,
        Map::empty().insert("userid"@, natural(user as nat)),
        Map::empty(),
        result,
    );
    if result.rows.len() == 1 && result.rows[0].len() > 0 {
        if let Ok(usage) = read_i64(result.rows[0][0]) {
            assert((usage as u64) as i128 == (if usage >= 0 {
                usage as i128
            } else {
                (usage as i128 + 0x1_0000_0000_0000_0000i128) as i128
            })) by (bit_vector);
        }
    }
}

/// To delete a collection deletes its objects and then its row, both of that user and of the
/// collection that the name stands for, and then asks when the storage was modified.
pub proof fn law_delete_collection(db: DbView, user: u32, name: Seq<char>, id: i32)
    requires
        known(db, name, id),
        heard(db) is Some,
    ensures
        ({
            let row = Map::empty().insert("userid"@, natural(user as nat)).insert(
                "collectionid"@,
                decimal(id as int),
            );
            let emptied = asked(
                db,
                "DELETE FROM bso WHERE userid=@userid AND collection=@collectionid"@,
                row,
                Map::empty(),
            );
            let removed = asked(
                emptied,
                "DELETE FROM user_collections WHERE userid=@userid AND collection=@collectionid"@,
                row,
                Map::empty(),
            );
            heard(emptied) is Some ==> db.delete_collection(user, name)
                == removed.get_storage_timestamp(user)
        }),
{
    let row = Map::empty().insert("userid"@, natural(user as nat)).insert(
        "collectionid"@,
        decimal(id as int),
    );
    law_statement(
        db,
        "DELETE FROM bso WHERE userid=@userid AND collection=@collectionid"@,
        row,
        Map::empty(),
        heard(db)->Some_0,
    );
    let emptied = asked(
        db,
        "DELETE FROM bso WHERE userid=@userid AND collection=@collectionid"@,
        row,
        Map::empty(),
    );
    if heard(emptied) is Some {
        law_statement(
            emptied,
            "DELETE FROM user_collections WHERE userid=@userid AND collection=@collectionid"@,
            row,
            Map::empty(),
            heard(emptied)->Some_0,
        );
    }
}

/// To delete an object touches its collection and then deletes the row that writing the object
/// makes. Where the reply counts no row there was no object; any other count is a success, at
/// the session's time.
pub proof fn law_delete_bso(
    db: DbView,
    user: u32,
    name: Seq<char>,
    id: i32,
    bso: Seq<char>,
    touched: DbView,
    result: ResultSetView,
)
    requires
        known(db, name, id),
        db.touch_collection(user, id) == (Step {
            db: touched,
            out: Ok::<int, StopView>(db.timestamp),
        }),
        heard(touched) == Some(result),
    ensures
        ({
            let after = db.delete_bso(user, name, bso);
            &&& after.db == asked(
                touched,
                "DELETE FROM bso WHERE userid=@userid AND collection=@collectionid AND id=@bsoid"@,
                row_of(natural(user as nat), id, bso),
                Map::empty(),
            )
            &&& after.out == (match result.stats {
                Some(Some(text)) => match read_i64(text) {
                    Ok(count) => if count == 0 {
                        Err(StopView::Failed(ErrorView::BsoNotFound))
                    } else {
                        Ok(db.timestamp)
                    },
                    Err(error) => Err(
                        StopView::Failed(
                            ErrorView::Internal("Invalid row_count_exact i64 value "@ + error),
                        ),
                    ),
                },
                Some(None) => Err(
                    StopView::Failed(
                        ErrorView::Internal("Expected result_set stats row_count_exact"@),
                    ),
                ),
                None => Err(StopView::Failed(ErrorView::Internal("Expected result_set stats"@))),
            })
        }),
{
    law_statement(
        touched,
        "DELETE FROM bso WHERE userid=@userid AND collection=@collectionid AND id=@bsoid"@,
        row_of(natural(user as nat), id, bso),
        Map::empty(),
        result,
    );
}

/// An object is not deleted from a collection that cannot be touched.
pub proof fn law_delete_touches(db: DbView, user: u32, name: Seq<char>, id: i32, bso: Seq<char>)
    requires
        known(db, name, id),
        db.touch_collection(user, id).out is Err,
    ensures
        db.delete_bso(user, name, bso) == db.touch_collection(user, id),
{
}

/// To delete no objects is an error.
pub proof fn law_delete_no_bsos(db: DbView, user: u32, name: Seq<char>, id: i32)
    requires
        known(db, name, id),
    ensures
        db.delete_bsos(user, name, Seq::empty()) == (Step {
            db,
            out: Err::<int, StopView>(StopView::Failed(ErrorView::BsoNotFound)),
        }),
{
}

/// To delete objects looks for the first, deletes it, and goes on with the others; the first
/// that fails ends it, and behind the last the collection is touched.
pub proof fn law_delete_in_turn(
    db: DbView,
    user: u32,
    name: Seq<char>,
    id: i32,
    bso: Seq<char>,
    others: Seq<Seq<char>>,
)
    requires
        known(db, name, id),
        heard(db) is Some,
    ensures
        ({
            let looked = asked(
                db,
                "SELECT 1 FROM bso WHERE userid=@userid AND collection=@collectionid AND id=@bsoid"@,
                row_of(natural(user as nat), id, bso),
                Map::empty(),
            );
            let first = looked.delete_bso(user, name, bso);
            let after = db.delete_bsos(user, name, seq![bso] + others);
            &&& known(first.db, name, id)
            &&& match first.out {
                Ok(_) => after == (if others.len() == 0 {
                    first.db.touch_collection(user, id)
                } else {
                    first.db.delete_bsos(user, name, others)
                }),
                Err(_) => after == first,
            }
        }),
{
    let sql = "SELECT 1 FROM bso WHERE userid=@userid AND collection=@collectionid AND id=@bsoid"@;
    let row = row_of(natural(user as nat), id, bso);
    law_statement(db, sql, row, Map::empty(), heard(db)->Some_0);
    let looked = asked(db, sql, row, Map::empty());
    assert(db.look_for(user, id, bso) == (Step {
        db: looked,
        out: Ok::<ResultSetView, StopView>(heard(db)->Some_0),
    }));
    let all = seq![bso] + others;
    assert(all[0] == bso);
    assert(all.drop_first() =~= others);
    let first = looked.delete_bso(user, name, bso);
    assert(first.db.cache == looked.cache);
    reveal_with_fuel(DbView::delete_each, 2);
}

} // verus!
