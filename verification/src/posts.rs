//! How objects are written together.

use vstd::prelude::*;

use crate::conn::{RequestView, ResultSetView, RowView};
use crate::db::{DbView, Step};
use crate::decimal::read_i32;
use crate::error::{message, StopView};
use crate::puts::{
    expiry_of, law_get_after_insertion, law_get_after_update, law_put_inserts, law_put_updates,
    looked_at, made_by, set_by,
};
use crate::results::PostView;
use crate::statements::{has_text, heard, known};
use crate::stored::{legible, readable};
use crate::timestamp::rfc3339_instant;
use crate::write::PutView;

verus! {

/// To put an object in a collection that is in the cache leaves the cache and the session's time
/// as they are.
proof fn lemma_put_keeps(db: DbView, user: u64, name: Seq<char>, id: i32, bso: PutView)
    requires
        known(db, name, id),
    ensures
        db.put_bso(user, name, bso).db.cache == db.cache,
        db.put_bso(user, name, bso).db.timestamp == db.timestamp,
        known(db.put_bso(user, name, bso).db, name, id),
{
}

/// What was written before is reported before.
#[verifier::rlimit(40)]
proof fn lemma_success_before(
    db: DbView,
    user: u64,
    name: Seq<char>,
    bsos: Seq<PutView>,
    before: Seq<Seq<char>>,
    result: PostView,
)
    ensures
        ({
            let less = db.post_each(user, name, bsos, result);
            let more = db.post_each(
                user,
                name,
                bsos,
                PostView { success: before + result.success, ..result },
            );
            &&& more.db == less.db
            &&& more.out == (match less.out {
                Ok(posted) => Ok(PostView { success: before + posted.success, ..posted }),
                Err(stop) => Err(stop),
            })
        }),
    decreases bsos.len(),
{
    if bsos.len() > 0 {
        let put = db.put_bso(user, name, bsos[0]);
        let rest = bsos.drop_first();
        match put.out {
            Ok(_) => {
                lemma_success_before(
                    put.db,
                    user,
                    name,
                    rest,
                    before,
                    PostView { success: result.success.push(bsos[0].id), ..result },
                );
                assert(before + result.success.push(bsos[0].id) =~= (before + result.success).push(
                    bsos[0].id,
                ));
            },
            Err(StopView::Failed(error)) => {
                lemma_success_before(
                    put.db,
                    user,
                    name,
                    rest,
                    before,
                    PostView { failed: result.failed.insert(bsos[0].id, message(error)), ..result },
                );
            },
            Err(_) => {},
        }
    }
}

/// To post no objects touches the collection, and reports those that had failed before.
pub proof fn law_post_nothing(
    db: DbView,
    user: u64,
    name: Seq<char>,
    id: i32,
    failed: Map<Seq<char>, Seq<char>>,
)
    requires
        known(db, name, id),
    ensures
        ({
            let touched = db.touch_collection(user as u32, id);
            let posted = db.post_bsos(user, name, Seq::empty(), failed);
            &&& posted.db == touched.db
            &&& posted.out == (match touched.out {
                Ok(_) => Ok(
                    PostView { modified: db.timestamp, success: Seq::empty(), failed },
                ),
                Err(stop) => Err(stop),
            })
        }),
{
}

/// To post objects puts the first of them, and then posts the others: an object that was put
/// stands first among the successes, and one that could not be put is among the failures with
/// what its error says.
#[verifier::rlimit(40)]
pub proof fn law_post_in_turn(
    db: DbView,
    user: u64,
    name: Seq<char>,
    id: i32,
    bso: PutView,
    others: Seq<PutView>,
    failed: Map<Seq<char>, Seq<char>>,
)
    requires
        known(db, name, id),
    ensures
        known(db.put_bso(user, name, bso).db, name, id),
        db.put_bso(user, name, bso).db.timestamp == db.timestamp,
        ({
            let put = db.put_bso(user, name, bso);
            let posted = db.post_bsos(user, name, seq![bso] + others, failed);
            match put.out {
                Ok(_) => {
                    let then = put.db.post_bsos(user, name, others, failed);
                    &&& posted.db == then.db
                    &&& posted.out == (match then.out {
                        Ok(more) => Ok(
                            PostView {
                                modified: db.timestamp,
                                success: seq![bso.id] + more.success,
                                failed: more.failed,
                            },
                        ),
                        Err(stop) => Err(stop),
                    })
                },
                Err(StopView::Failed(error)) => posted == put.db.post_bsos(
                    user,
                    name,
                    others,
                    failed.insert(bso.id, message(error)),
                ),
                Err(stop) => posted == (Step { db: put.db, out: Err::<PostView, StopView>(stop) }),
            }
        }),
{
    lemma_put_keeps(db, user, name, id, bso);
    let put = db.put_bso(user, name, bso);
    let all = seq![bso] + others;
    assert(all.drop_first() =~= others);
    let start = PostView { modified: db.timestamp, success: Seq::empty(), failed };
    if put.out is Ok {
        lemma_success_before(put.db, user, name, others, seq![bso.id], start);
        assert(seq![bso.id] + start.success =~= start.success.push(bso.id));
        lemma_modified(put.db, user, name, others, start);
    }
}

/// Every object of a post is written at the session's time.
#[verifier::rlimit(40)]
proof fn lemma_modified(
    db: DbView,
    user: u64,
    name: Seq<char>,
    bsos: Seq<PutView>,
    result: PostView,
)
    ensures
        db.post_each(user, name, bsos, result).out matches Ok(posted) ==> posted.modified
            == result.modified,
    decreases bsos.len(),
{
    if bsos.len() > 0 {
        let put = db.put_bso(user, name, bsos[0]);
        let rest = bsos.drop_first();
        match put.out {
            Ok(_) => {
                lemma_modified(
                    put.db,
                    user,
                    name,
                    rest,
                    PostView { success: result.success.push(bsos[0].id), ..result },
                );
            },
            Err(StopView::Failed(error)) => {
                lemma_modified(
                    put.db,
                    user,
                    name,
                    rest,
                    PostView { failed: result.failed.insert(bsos[0].id, message(error)), ..result },
                );
            },
            Err(_) => {},
        }
    }
}

/// To post one object sends what putting that very object sends, and then touches the
/// collection.
pub proof fn law_post_one(
    db: DbView,
    user: u64,
    name: Seq<char>,
    id: i32,
    bso: PutView,
    failed: Map<Seq<char>, Seq<char>>,
)
    requires
        known(db, name, id),
        db.put_bso(user, name, bso).out is Ok,
    ensures
        ({
            let put = db.put_bso(user, name, bso);
            let touched = put.db.touch_collection(user as u32, id);
            let posted = db.post_bsos(user, name, seq![bso], failed);
            &&& posted.db == touched.db
            &&& posted.out == (match touched.out {
                Ok(_) => Ok(
                    PostView { modified: db.timestamp, success: seq![bso.id], failed },
                ),
                Err(stop) => Err(stop),
            })
        }),
{
    law_post_in_turn(db, user, name, id, bso, Seq::empty(), failed);
    assert(seq![bso] + Seq::<PutView>::empty() =~= seq![bso]);
    assert(seq![bso.id] + Seq::<Seq<char>>::empty() =~= seq![bso.id]);
    law_post_nothing(db.put_bso(user, name, bso).db, user, name, id, failed);
}

/// What putting an object sends stands among what posting it sends, in its place.
pub proof fn law_post_sends_the_put(
    db: DbView,
    user: u64,
    name: Seq<char>,
    id: i32,
    bso: PutView,
    failed: Map<Seq<char>, Seq<char>>,
)
    requires
        known(db, name, id),
        db.put_bso(user, name, bso).out is Ok,
    ensures
        ({
            let put = db.put_bso(user, name, bso).db.conn.sent;
            let posted = db.post_bsos(user, name, seq![bso], failed).db.conn.sent;
            &&& put.len() <= posted.len()
            &&& forall|i: int| 0 <= i < put.len() ==> put[i] == #[trigger] posted[i]
        }),
{
    law_post_one(db, user, name, id, bso, failed);
}

/// What a read gives back of a post: after an object was posted that was there, a session that
/// finds the row as the text of the update has it gets the object with the parts that were
/// posted, its time to live among them, and the others as they were.
pub proof fn law_get_after_posted_update(
    db: DbView,
    user: u64,
    name: Seq<char>,
    id: i32,
    bso: PutView,
    failed: Map<Seq<char>, Seq<char>>,
    touched: DbView,
    found: ResultSetView,
    later: DbView,
    before: RowView,
    result: ResultSetView,
)
    requires
        known(db, name, id),
        has_text(db.timestamp),
        touched.timestamp == db.timestamp,
        db.touch_collection(user as u32, id) == (Step {
            db: touched,
            out: Ok::<int, StopView>(db.timestamp),
        }),
        heard(touched) == Some(found),
        found.rows.len() == 1,
        bso.sortindex is Some || bso.ttl is Some || bso.payload is Some,
        bso.ttl is Some ==> has_text(expiry_of(bso, db.timestamp)),
        heard(looked_at(touched, user, id, bso.id)) is Some,
        readable(db.timestamp),
        bso.ttl is Some ==> readable(expiry_of(bso, db.timestamp)),
        known(later, name, id),
        has_text(later.timestamp),
        heard(later) == Some(result),
        result.rows.len() == 1,
        legible(before),
        before[0] == bso.id,
        db.post_bsos(user, name, seq![bso], failed).db.conn.sent[db.put_bso(
            user,
            name,
            bso,
        ).db.conn.sent.len() - 1] matches RequestView::Execute(sent) && set_by(
            result.rows[0],
            before,
            sent,
        ),
    ensures
        later.get_bso(user, name, bso.id).out matches Ok(Some(object)) && {
            &&& object.id == bso.id
            &&& object.payload == (match bso.payload {
                Some(payload) => payload,
                None => before[2],
            })
            &&& object.sortindex == (match bso.sortindex {
                Some(sortindex) => Some(sortindex),
                None => Some(read_i32(before[3])->Ok_0),
            })
            &&& object.expiry == (match bso.ttl {
                Some(ttl) => (db.timestamp + ttl * 1000) as i64,
                None => rfc3339_instant(before[4])->Ok_0,
            })
            &&& object.modified == (if bso.payload is Some || bso.sortindex is Some {
                db.timestamp
            } else {
                rfc3339_instant(before[1])->Ok_0 as int
            })
        },
{
    law_put_updates(db, user, name, id, bso, touched, found);
    law_post_sends_the_put(db, user, name, id, bso, failed);
    law_get_after_update(db, user, name, id, bso, touched, found, later, before, result);
}

/// What a read gives back of a post: after an object was posted that was not there, a session
/// that finds the row as the insertion has it gets the object as it was posted, its time to live
/// among the rest.
pub proof fn law_get_after_posted_insertion(
    db: DbView,
    user: u64,
    name: Seq<char>,
    id: i32,
    bso: PutView,
    failed: Map<Seq<char>, Seq<char>>,
    touched: DbView,
    found: ResultSetView,
    later: DbView,
    result: ResultSetView,
)
    requires
        known(db, name, id),
        has_text(db.timestamp),
        touched.timestamp == db.timestamp,
        db.touch_collection(user as u32, id) == (Step {
            db: touched,
            out: Ok::<int, StopView>(db.timestamp),
        }),
        heard(touched) == Some(found),
        found.rows.len() == 0,
        has_text(expiry_of(bso, db.timestamp)),
        heard(looked_at(touched, user, id, bso.id)) is Some,
        readable(db.timestamp),
        readable(expiry_of(bso, db.timestamp)),
        known(later, name, id),
        has_text(later.timestamp),
        heard(later) == Some(result),
        result.rows.len() == 1,
        db.post_bsos(user, name, seq![bso], failed).db.conn.sent[db.put_bso(
            user,
            name,
            bso,
        ).db.conn.sent.len() - 1] matches RequestView::Execute(sent) && made_by(
            result.rows[0],
            sent,
        ),
    ensures
        later.get_bso(user, name, bso.id).out matches Ok(Some(object)) && {
            &&& object.id == bso.id
            &&& object.modified == db.timestamp
            &&& object.payload == (match bso.payload {
                Some(payload) => payload,
                None => "DEFAULT"@,
            })
            &&& object.sortindex == (match bso.sortindex {
                Some(sortindex) => Some(sortindex),
                None => Some(0i32),
            })
            &&& object.expiry == (match bso.ttl {
                Some(ttl) => (db.timestamp + ttl * 1000) as i64,
                None => (db.timestamp + 2_100_000_000_000) as i64,
            })
        },
{
    law_put_inserts(db, user, name, id, bso, touched, found);
    law_post_sends_the_put(db, user, name, id, bso, failed);
    law_get_after_insertion(db, user, name, id, bso, touched, found, later, result);
}

} // verus!
