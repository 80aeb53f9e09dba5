//! What holds between writing objects and reading them.

use vstd::prelude::*;

use crate::conn::{prefix_of_prefix, RequestView, RowView, SqlView};
use crate::db::DbView;
use crate::decimal::{decimal, decimal_value, law_decimal_round_trip, natural};
use crate::error::{message, ErrorView, StopView};
use crate::laws::law_modified_is_now;
use crate::read::{listed_bso, single_bso};
use crate::results::{BsoView, PostView};
use crate::rows::cell;
use crate::timestamp::{
    instant_of, reads_back, text_of, FIRST_INSTANT, LAST_FOUR_DIGIT_INSTANT, LAST_INSTANT,
};
use crate::write::{inserts, lemma_statements_differ, updates, PutView};

verus! {

/// A row of an object whose cells stand for what the parameters of an insertion stand for. A
/// sort index that was not given is read as 0.
pub open spec fn holds_inserted(row: RowView, sent: SqlView) -> bool {
    &&& row.len() == 5
    &&& row[0] == sent.params["bsoid"@]
    &&& instant_of(row[1]) == instant_of(sent.params["modified"@])
    &&& row[2] == sent.params["payload"@]
    &&& decimal_value(row[3]) == (if sent.params.contains_key("sortindex"@) {
        decimal_value(sent.params["sortindex"@])
    } else {
        Some(0int)
    })
    &&& instant_of(row[4]) == instant_of(sent.params["expiry"@])
}

/// A row of an object after an update: a cell that was set stands for what its parameter stands
/// for, and the others are as they were.
pub open spec fn holds_updated(row: RowView, before: RowView, sent: SqlView) -> bool {
    &&& row.len() == 5
    &&& row[0] == before[0]
    &&& instant_of(row[1]) == instant_of(
        if sent.params.contains_key("modified"@) {
            sent.params["modified"@]
        } else {
            before[1]
        },
    )
    &&& row[2] == (if sent.params.contains_key("payload"@) {
        sent.params["payload"@]
    } else {
        before[2]
    })
    &&& decimal_value(row[3]) == decimal_value(
        if sent.params.contains_key("sortindex"@) {
            sent.params["sortindex"@]
        } else {
            before[3]
        },
    )
    &&& instant_of(row[4]) == instant_of(
        if sent.params.contains_key("expiry"@) {
            sent.params["expiry"@]
        } else {
            before[4]
        },
    )
}

impl PutView {
    /// The object that an insertion at that time makes.
    pub open spec fn inserted(self, now: int) -> BsoView {
        BsoView {
            id: self.id,
            modified: now,
            payload: self.first_payload(),
            sortindex: match self.sortindex {
                Some(sortindex) => Some(sortindex),
                None => Some(0),
            },
            expiry: self.first_expiry(now) as i64,
        }
    }

    /// The object that an update at that time makes of another.
    pub open spec fn updated(self, before: BsoView, now: int) -> BsoView {
        BsoView {
            id: before.id,
            modified: if self.modifies() {
                now
            } else {
                before.modified
            },
            payload: match self.payload {
                Some(payload) => payload,
                None => before.payload,
            },
            sortindex: match self.sortindex {
                Some(sortindex) => Some(sortindex),
                None => before.sortindex,
            },
            expiry: match self.new_expiry(now) {
                Some(expiry) => expiry as i64,
                None => before.expiry,
            },
        }
    }
}

/// The names of an object's parameters are all different.
proof fn lemma_parameter_names()
    ensures
        "bsoid"@.len() == 5,
        "expiry"@.len() == 6,
        "payload"@.len() == 7,
        "modified"@.len() == 8,
        "sortindex"@.len() == 9,
        "collectionid"@.len() == 12,
        "userid"@.len() == 6,
        "userid"@ != "expiry"@,
{
    reveal_strlit("bsoid");
    reveal_strlit("expiry");
    reveal_strlit("payload");
    reveal_strlit("modified");
    reveal_strlit("sortindex");
    reveal_strlit("collectionid");
    reveal_strlit("userid");
    assert("userid"@[0] != "expiry"@[0]);
}

/// Each parameter of an insertion holds what its column is to hold.
pub proof fn law_insert_parameters(
    bso: PutView,
    request: SqlView,
    modified: Seq<char>,
    expiry: Seq<char>,
)
    ensures
        ({
            let sent = bso.bind_insert(request, modified, expiry);
            &&& sent.sql == request.sql
            &&& sent.params["userid"@] == request.params["userid"@]
            &&& sent.params["collectionid"@] == request.params["collectionid"@]
            &&& sent.params["bsoid"@] == bso.id
            &&& sent.params["payload"@] == bso.first_payload()
            &&& sent.params["modified"@] == modified
            &&& sent.params["expiry"@] == expiry
            &&& bso.sortindex matches Some(sortindex) ==> sent.params["sortindex"@] == decimal(
                sortindex as int,
            )
            &&& bso.sortindex is None ==> sent.params.contains_key("sortindex"@)
                == request.params.contains_key("sortindex"@)
        }),
{
    lemma_parameter_names();
}

/// Each parameter of an update holds what its column is to hold, and there is none for a
/// column that is not set.
pub proof fn law_update_parameters(
    bso: PutView,
    request: SqlView,
    modified: Seq<char>,
    expiry: Option<Seq<char>>,
)
    requires
        !request.params.contains_key("sortindex"@),
        !request.params.contains_key("expiry"@),
        !request.params.contains_key("modified"@),
        !request.params.contains_key("payload"@),
    ensures
        ({
            let sent = bso.bind_update(request, modified, expiry);
            &&& sent.sql == request.sql
            &&& sent.params["userid"@] == request.params["userid"@]
            &&& sent.params["collectionid"@] == request.params["collectionid"@]
            &&& sent.params["bsoid"@] == bso.id
            &&& sent.params.contains_key("sortindex"@) <==> bso.sortindex is Some
            &&& sent.params.contains_key("expiry"@) <==> expiry is Some
            &&& sent.params.contains_key("modified"@) <==> bso.modifies()
            &&& sent.params.contains_key("payload"@) <==> bso.payload is Some
            &&& bso.sortindex matches Some(sortindex) ==> sent.params["sortindex"@] == decimal(
                sortindex as int,
            )
            &&& expiry matches Some(text) ==> sent.params["expiry"@] == text
            &&& bso.modifies() ==> sent.params["modified"@] == modified
            &&& bso.payload matches Some(payload) ==> sent.params["payload"@] == payload
        }),
{
    lemma_parameter_names();
}

/// An insertion that succeeded sent its parameters, at a time and with an expiry that the
/// calendar reaches.
proof fn lemma_put_inserts(db: DbView, user: u64, name: Seq<char>, bso: PutView) -> (request:
    SqlView)
    requires
        db.put_bso(user, name, bso).out is Ok,
        inserts(db.put_bso(user, name, bso).db, bso),
    ensures
        text_of(db.timestamp) is Ok,
        text_of(bso.first_expiry(db.timestamp)) is Ok,
        db.put_bso(user, name, bso).db.conn.sent.last() == RequestView::Execute(
            bso.bind_insert(
                request,
                text_of(db.timestamp)->Ok_0,
                text_of(bso.first_expiry(db.timestamp))->Ok_0,
            ),
        ),
        !request.params.contains_key("sortindex"@),
{
    lemma_statements_differ(bso);
    lemma_parameter_names();
    let found = db.get_or_create_collection_id(name);
    let id = found.out->Ok_0;
    assert(found.db.timestamp == db.timestamp);
    let touched = found.db.touch_collection(user as u32, id);
    assert(touched.db.timestamp == db.timestamp);
    let userid = natural(user as nat);
    let asked = touched.db.collection_sql(
        "SELECT 1 as count FROM bso WHERE userid = @userid AND collection = @collectionid AND id = @bsoid"@,
        userid,
        id,
    );
    let looked = asked.db.find(asked.out->Ok_0.with("bsoid"@, bso.id));
    let last = looked.db.collection_sql(bso.insert_sql(), userid, id);
    last.out->Ok_0
}

/// What a read gives back of a write: once an object was inserted, a row that holds what the
/// insertion carried is read as that object, modified at the time of the writing session and
/// with the expiry that follows from its time to live.
pub proof fn law_inserted_object_is_read(
    db: DbView,
    user: u64,
    name: Seq<char>,
    bso: PutView,
    sent: SqlView,
    row: RowView,
)
    requires
        db.put_bso(user, name, bso).out is Ok,
        db.put_bso(user, name, bso).db.conn.sent.last() == RequestView::Execute(sent),
        inserts(db.put_bso(user, name, bso).db, bso),
        holds_inserted(row, sent),
        db.timestamp >= 0,
        bso.first_expiry(db.timestamp) <= LAST_FOUR_DIGIT_INSTANT,
        reads_back(db.timestamp),
        reads_back(bso.first_expiry(db.timestamp)),
    ensures
        single_bso(row) == Ok::<BsoView, StopView>(bso.inserted(db.timestamp)),
        listed_bso(row) == Ok::<BsoView, StopView>(bso.inserted(db.timestamp)),
{
    let request = lemma_put_inserts(db, user, name, bso);
    law_insert_parameters(
        bso,
        request,
        text_of(db.timestamp)->Ok_0,
        text_of(bso.first_expiry(db.timestamp))->Ok_0,
    );
    if let Some(sortindex) = bso.sortindex {
        law_decimal_round_trip(sortindex as int);
        assert(sent.params.contains_key("sortindex"@)) by {
            lemma_parameter_names();
        }
    }
}

/// An update that succeeded sent its parameters, at a time and with an expiry that the calendar
/// reaches.
proof fn lemma_put_updates(db: DbView, user: u64, name: Seq<char>, bso: PutView) -> (request:
    SqlView)
    requires
        db.put_bso(user, name, bso).out is Ok,
        updates(db.put_bso(user, name, bso).db, bso),
    ensures
        text_of(db.timestamp) is Ok,
        bso.new_expiry_text(db.timestamp) is Ok,
        db.put_bso(user, name, bso).db.conn.sent.last() == RequestView::Execute(
            bso.bind_update(
                request,
                text_of(db.timestamp)->Ok_0,
                bso.new_expiry_text(db.timestamp)->Ok_0,
            ),
        ),
        !request.params.contains_key("sortindex"@),
        !request.params.contains_key("expiry"@),
        !request.params.contains_key("modified"@),
        !request.params.contains_key("payload"@),
{
    lemma_statements_differ(bso);
    lemma_parameter_names();
    let found = db.get_or_create_collection_id(name);
    let id = found.out->Ok_0;
    assert(found.db.timestamp == db.timestamp);
    let touched = found.db.touch_collection(user as u32, id);
    assert(touched.db.timestamp == db.timestamp);
    let userid = natural(user as nat);
    let asked = touched.db.collection_sql(
        "SELECT 1 as count FROM bso WHERE userid = @userid AND collection = @collectionid AND id = @bsoid"@,
        userid,
        id,
    );
    let looked = asked.db.find(asked.out->Ok_0.with("bsoid"@, bso.id));
    let last = looked.db.collection_sql(bso.update_sql(), userid, id);
    last.out->Ok_0
}

/// What a read gives back of an update: a row that holds what the update carried, and what the
/// object's row held before in every column that was not set, is read as the object with the
/// given parts replaced.
pub proof fn law_updated_object_is_read(
    db: DbView,
    user: u64,
    name: Seq<char>,
    bso: PutView,
    sent: SqlView,
    before: RowView,
    object: BsoView,
    row: RowView,
)
    requires
        db.put_bso(user, name, bso).out is Ok,
        db.put_bso(user, name, bso).db.conn.sent.last() == RequestView::Execute(sent),
        updates(db.put_bso(user, name, bso).db, bso),
        listed_bso(before) == Ok::<BsoView, StopView>(object),
        holds_updated(row, before, sent),
        0 <= db.timestamp <= LAST_FOUR_DIGIT_INSTANT,
        reads_back(db.timestamp),
        bso.new_expiry(db.timestamp) matches Some(expiry) ==> expiry <= LAST_FOUR_DIGIT_INSTANT
            && reads_back(expiry),
    ensures
        single_bso(row) == Ok::<BsoView, StopView>(bso.updated(object, db.timestamp)),
        listed_bso(row) == Ok::<BsoView, StopView>(bso.updated(object, db.timestamp)),
{
    let request = lemma_put_updates(db, user, name, bso);
    law_update_parameters(
        bso,
        request,
        text_of(db.timestamp)->Ok_0,
        bso.new_expiry_text(db.timestamp)->Ok_0,
    );
    if let Some(sortindex) = bso.sortindex {
        law_decimal_round_trip(sortindex as int);
    }
}

/// A session gets the object in the row that comes back for it, and none where no row does.
pub proof fn law_get_bso_gives_the_row(
    db: DbView,
    user: u64,
    name: Seq<char>,
    bso: Seq<char>,
    rows: Seq<RowView>,
)
    requires
        db.cache.ids.contains_key(name),
        db.transaction is Some,
        0 <= db.statements < u64::MAX,
        FIRST_INSTANT <= db.timestamp <= LAST_INSTANT,
        db.conn.receive() matches Ok(reply) && reply.result.rows == rows,
    ensures
        rows.len() == 0 ==> db.get_bso(user, name, bso).out == Ok::<Option<BsoView>, StopView>(
            None,
        ),
        rows.len() == 1 ==> db.get_bso(user, name, bso).out == (match single_bso(rows[0]) {
            Ok(object) => Ok::<Option<BsoView>, StopView>(Some(object)),
            Err(stop) => Err(stop),
        }),
        rows.len() > 1 ==> db.get_bso(user, name, bso).out == Err::<Option<BsoView>, StopView>(
            StopView::Failed(ErrorView::Internal("Expected one result; got more."@)),
        ),
{
}

/// An object that a look finds is not inserted again, and one that it does not find is.
pub proof fn law_only_new_objects_are_inserted(
    db: DbView,
    userid: Seq<char>,
    id: i32,
    bso: PutView,
    row: Option<RowView>,
)
    requires
        db.look_at(userid, id, bso.id).out == Ok::<Option<RowView>, StopView>(row),
        db.write_bso(userid, id, bso).out is Ok,
    ensures
        inserts(db.write_bso(userid, id, bso).db, bso) <==> row is None,
{
    lemma_statements_differ(bso);
    let looked = db.look_at(userid, id, bso.id);
    assert(looked.db.conn.sent.last() matches RequestView::Execute(sent) && sent.sql
        == "SELECT 1 as count FROM bso WHERE userid = @userid AND collection = @collectionid AND id = @bsoid"@);
}

/// To touch a collection stores the session's current time under the user and the collection.
pub proof fn law_touch_stores_now(db: DbView, user: u32, id: i32)
    requires
        db.touch_collection(user, id).out is Ok,
    ensures
        ({
            let after = db.touch_collection(user, id).db;
            &&& after.conn.sent.last() matches RequestView::Execute(sent) && {
                &&& sent.params["userid"@] == natural(user as nat)
                &&& sent.params["collectionid"@] == decimal(id as int)
                &&& text_of(db.timestamp) == Ok::<Seq<char>, ErrorView>(
                    sent.params[if sent.params.contains_key("modified"@) {
                        "modified"@
                    } else {
                        "last_modified"@
                    }],
                )
            }
        }),
{
    lemma_parameter_names();
    reveal_strlit("last_modified");
    assert("last_modified"@.len() == 13);
}

/// To write the same again at the same time changes nothing: an object that was inserted stays
/// as it is, and so does one that was updated.
pub proof fn law_writing_again_changes_nothing(bso: PutView, object: BsoView, now: int)
    ensures
        bso.updated(bso.inserted(now), now) == bso.inserted(now),
        bso.updated(bso.updated(object, now), now) == bso.updated(object, now),
{
}

/// Once an object was inserted, to write the same again at the same time comes out with the same
/// time, and leaves a row that is read as the same object: the row of the insertion where
/// nothing is set, else one that holds what the update carried.
pub proof fn law_inserted_object_is_written_again(
    db: DbView,
    again: DbView,
    user: u64,
    name: Seq<char>,
    bso: PutView,
    sent: SqlView,
    row: RowView,
    update: SqlView,
    later: RowView,
)
    requires
        db.put_bso(user, name, bso).out is Ok,
        db.put_bso(user, name, bso).db.conn.sent.last() == RequestView::Execute(sent),
        inserts(db.put_bso(user, name, bso).db, bso),
        holds_inserted(row, sent),
        again.timestamp == db.timestamp,
        again.put_bso(user, name, bso).out is Ok,
        bso.assignments().len() > 0 ==> {
            &&& again.put_bso(user, name, bso).db.conn.sent.last() == RequestView::Execute(update)
            &&& updates(again.put_bso(user, name, bso).db, bso)
            &&& holds_updated(later, row, update)
        },
        bso.assignments().len() == 0 ==> later == row,
        db.timestamp >= 0,
        bso.first_expiry(db.timestamp) <= LAST_FOUR_DIGIT_INSTANT,
        reads_back(db.timestamp),
        reads_back(bso.first_expiry(db.timestamp)),
    ensures
        again.put_bso(user, name, bso).out == db.put_bso(user, name, bso).out,
        listed_bso(row) == Ok::<BsoView, StopView>(bso.inserted(db.timestamp)),
        listed_bso(later) == listed_bso(row),
        single_bso(later) == single_bso(row),
{
    law_inserted_object_is_read(db, user, name, bso, sent, row);
    law_modified_is_now(db, user, name, 0, bso, Seq::empty());
    law_modified_is_now(again, user, name, 0, bso, Seq::empty());
    let object = bso.inserted(db.timestamp);
    law_writing_again_changes_nothing(bso, object, db.timestamp);
    if bso.assignments().len() > 0 {
        law_updated_object_is_read(again, user, name, bso, update, row, object, later);
    }
}

/// Once an object was updated, to write the same again at the same time comes out with the same
/// time, and a row that holds what the second update carried is read as the same object.
pub proof fn law_updated_object_is_written_again(
    db: DbView,
    again: DbView,
    user: u64,
    name: Seq<char>,
    bso: PutView,
    before: RowView,
    object: BsoView,
    first: SqlView,
    row: RowView,
    second: SqlView,
    later: RowView,
)
    requires
        db.put_bso(user, name, bso).out is Ok,
        db.put_bso(user, name, bso).db.conn.sent.last() == RequestView::Execute(first),
        updates(db.put_bso(user, name, bso).db, bso),
        listed_bso(before) == Ok::<BsoView, StopView>(object),
        holds_updated(row, before, first),
        again.timestamp == db.timestamp,
        again.put_bso(user, name, bso).out is Ok,
        again.put_bso(user, name, bso).db.conn.sent.last() == RequestView::Execute(second),
        updates(again.put_bso(user, name, bso).db, bso),
        holds_updated(later, row, second),
        0 <= db.timestamp <= LAST_FOUR_DIGIT_INSTANT,
        reads_back(db.timestamp),
        bso.new_expiry(db.timestamp) matches Some(expiry) ==> expiry <= LAST_FOUR_DIGIT_INSTANT
            && reads_back(expiry),
    ensures
        again.put_bso(user, name, bso).out == db.put_bso(user, name, bso).out,
        listed_bso(later) == listed_bso(row),
        single_bso(later) == single_bso(row),
{
    law_modified_is_now(db, user, name, 0, bso, Seq::empty());
    law_modified_is_now(again, user, name, 0, bso, Seq::empty());
    law_updated_object_is_read(db, user, name, bso, first, before, object, row);
    let updated = bso.updated(object, db.timestamp);
    law_writing_again_changes_nothing(bso, object, db.timestamp);
    law_updated_object_is_read(again, user, name, bso, second, row, updated, later);
}

/// The time of an object is the time in the object: where a row of it holds what the object's
/// row holds, both sessions tell the same, and where there is no row, no object and 0.
pub proof fn law_time_of_an_object(
    db: DbView,
    other: DbView,
    user: u32,
    name: Seq<char>,
    bso: Seq<char>,
    row: Option<RowView>,
    time: Option<RowView>,
)
    requires
        db.find_object(user as u64, name, bso).out == Ok::<Option<RowView>, StopView>(row),
        other.find_time(user, name, bso).out == Ok::<Option<RowView>, StopView>(time),
        row is None <==> time is None,
        row matches Some(r) ==> (time matches Some(t) ==> cell(t, 0) == cell(r, 1)),
    ensures
        db.get_bso(user as u64, name, bso).out matches Ok(Some(object)) ==> other.get_bso_timestamp(
            user,
            name,
            bso,
        ).out == Ok::<int, StopView>(object.modified),
        db.get_bso(user as u64, name, bso).out == Ok::<Option<BsoView>, StopView>(None) ==> {
            other.get_bso_timestamp(user, name, bso).out == Ok::<int, StopView>(0)
        },
        row is None ==> db.get_bso(user as u64, name, bso).out == Ok::<Option<BsoView>, StopView>(
            None,
        ),
{
}

/// With nothing to set, an object that exists is left as it is: nothing is sent after the look
/// at it, and the collection is touched all the same.
pub proof fn law_nothing_to_set(db: DbView, userid: Seq<char>, id: i32, bso: PutView)
    requires
        bso.sortindex is None,
        bso.payload is None,
        bso.ttl is None,
    ensures
        db.update_bso(userid, id, bso) == db.done(()),
{
}

/// What became of an object: it was written, or it is reported with an error.
pub open spec fn accounted(result: PostView, id: Seq<char>) -> bool {
    result.success.contains(id) || result.failed.contains_key(id)
}

/// A report from `start` on accounts for the objects: each of them is in it, no more are
/// counted as written than there are, and what was reported before stays.
pub open spec fn accounts_for(bsos: Seq<PutView>, start: PostView, result: PostView) -> bool {
    &&& result.modified == start.modified
    &&& result.success.len() <= start.success.len() + bsos.len()
    &&& start.success.is_prefix_of(result.success)
    &&& forall|i: int| 0 <= i < bsos.len() ==> accounted(result, #[trigger] bsos[i].id)
    &&& forall|id: Seq<char>| #[trigger]
        start.failed.contains_key(id) ==> result.failed.contains_key(id)
    &&& forall|k: int|
        start.success.len() <= k < result.success.len() ==> among(
            bsos,
            #[trigger] result.success[k],
        )
    &&& forall|id: Seq<char>| #[trigger]
        result.failed.contains_key(id) ==> start.failed.contains_key(id) || among(bsos, id)
}

/// The id is that of one of the objects.
pub open spec fn among(bsos: Seq<PutView>, id: Seq<char>) -> bool {
    exists|i: int| 0 <= i < bsos.len() && #[trigger] bsos[i].id == id
}

/// Every object that was to be written is either among those that were or reported with an
/// error, nothing else is, and what was reported before stays.
pub proof fn law_post_accounts_for_every_object(
    db: DbView,
    user: u64,
    name: Seq<char>,
    bsos: Seq<PutView>,
    failed: Map<Seq<char>, Seq<char>>,
    result: PostView,
)
    requires
        db.post_bsos(user, name, bsos, failed).out == Ok::<PostView, StopView>(result),
    ensures
        accounts_for(
            bsos,
            PostView { modified: db.timestamp, success: Seq::empty(), failed },
            result,
        ),
{
    let found = db.get_or_create_collection_id(name);
    assert(found.db.timestamp == db.timestamp);
    let start = PostView { modified: db.timestamp, success: Seq::empty(), failed };
    lemma_post_each_accounts(found.db, user, name, bsos, start, result);
}

proof fn lemma_post_each_accounts(
    db: DbView,
    user: u64,
    name: Seq<char>,
    bsos: Seq<PutView>,
    start: PostView,
    result: PostView,
)
    requires
        db.post_each(user, name, bsos, start).out == Ok::<PostView, StopView>(result),
    ensures
        accounts_for(bsos, start, result),
    decreases bsos.len(),
{
    if bsos.len() > 0 {
        let put = db.put_bso(user, name, bsos[0]);
        match put.out {
            Ok(_) => {
                let next = PostView { success: start.success.push(bsos[0].id), ..start };
                lemma_post_each_accounts(put.db, user, name, bsos.drop_first(), next, result);
                lemma_one_more_written(bsos, start, result);
            },
            Err(StopView::Failed(error)) => {
                let text = message(error);
                let next = PostView { failed: start.failed.insert(bsos[0].id, text), ..start };
                lemma_post_each_accounts(put.db, user, name, bsos.drop_first(), next, result);
                lemma_one_more_failed(bsos, start, text, result);
            },
            Err(_) => {},
        }
    }
}

proof fn lemma_one_more_written(bsos: Seq<PutView>, start: PostView, result: PostView)
    requires
        bsos.len() > 0,
        accounts_for(
            bsos.drop_first(),
            PostView { success: start.success.push(bsos[0].id), ..start },
            result,
        ),
    ensures
        accounts_for(bsos, start, result),
{
    let next = PostView { success: start.success.push(bsos[0].id), ..start };
    lemma_among_rest(bsos);
    assert(start.success.is_prefix_of(next.success));
    prefix_of_prefix(start.success, next.success, result.success);
    assert(next.success[start.success.len() as int] == bsos[0].id);
    assert(result.success[start.success.len() as int] == bsos[0].id);
    assert(accounted(result, bsos[0].id));
    assert forall|i: int| 0 <= i < bsos.len() implies accounted(result, #[trigger] bsos[i].id) by {
        if i > 0 {
            assert(accounted(result, bsos.drop_first()[i - 1].id));
        }
    }
    assert forall|id: Seq<char>| #[trigger]
        start.failed.contains_key(id) implies result.failed.contains_key(id) by {
        assert(next.failed.contains_key(id));
    }
}

proof fn lemma_one_more_failed(
    bsos: Seq<PutView>,
    start: PostView,
    text: Seq<char>,
    result: PostView,
)
    requires
        bsos.len() > 0,
        accounts_for(
            bsos.drop_first(),
            PostView { failed: start.failed.insert(bsos[0].id, text), ..start },
            result,
        ),
    ensures
        accounts_for(bsos, start, result),
{
    let next = PostView { failed: start.failed.insert(bsos[0].id, text), ..start };
    lemma_among_rest(bsos);
    assert(next.failed.contains_key(bsos[0].id));
    assert(accounted(result, bsos[0].id));
    assert forall|i: int| 0 <= i < bsos.len() implies accounted(result, #[trigger] bsos[i].id) by {
        if i > 0 {
            assert(accounted(result, bsos.drop_first()[i - 1].id));
        }
    }
    assert forall|id: Seq<char>| #[trigger]
        start.failed.contains_key(id) implies result.failed.contains_key(id) by {
        assert(next.failed.contains_key(id));
    }
}

proof fn lemma_among_rest(bsos: Seq<PutView>)
    requires
        bsos.len() > 0,
    ensures
        among(bsos, bsos[0].id),
        forall|id: Seq<char>| #[trigger] among(bsos.drop_first(), id) ==> among(bsos, id),
{
    assert forall|id: Seq<char>| #[trigger] among(bsos.drop_first(), id) implies among(
        bsos,
        id,
    ) by {
        let rest = bsos.drop_first();
        let k = choose|k: int| 0 <= k < rest.len() && #[trigger] rest[k].id == id;
        assert(bsos[k + 1].id == id);
    }
}

} // verus!
