//! What holds of every operation: what it leaves alone, how its statements are numbered, and
//! that running it again with more replies repeats what was sent.
//!
//! An operation is run from a copy of the storage each time a reply was added. The laws say that
//! this makes no difference: the runs send the same requests in the same order, each run waits
//! for exactly the first request without a reply, and a run that came to an end ends the same
//! with whatever else is on record.

use vstd::prelude::*;

use crate::collections::new_collection_id;
use crate::conn::{
    prefix_of_prefix, AnswerView, ConnView, RequestView, RowView, SpannerType, SqlView,
};
use crate::db::{CollectionLock, DbView, Step};
use crate::decimal::{decimal, digits_value, lemma_natural_round_trip, natural};
use crate::error::{message, ErrorView, StopView};
use crate::names::{collect, number_row, stamp_row};
use crate::read::{time_param, with_ids, written, QueryView};
use crate::results::PostView;
use crate::rows::{cell, i32_cell, must, one};
use crate::timestamp::text_of;
use crate::write::PutView;

verus! {

/// The number of a statement.
pub open spec fn number(request: SqlView) -> int {
    digits_value(request.seqno)
}

/// A statement in an open transaction, whose number is written in decimal.
pub open spec fn numbered(request: SqlView) -> bool {
    &&& request.transaction is Some
    &&& number(request) >= 0
    &&& request.seqno == natural(number(request) as nat)
}

impl DbView {
    /// The statements on the connection all run in an open transaction, and are numbered in
    /// the order in which they were sent, below the session's counter.
    pub open spec fn tidy(self) -> bool {
        &&& 0 <= self.statements <= u64::MAX
        &&& forall|i: int|
            #![trigger self.conn.sent[i]]
            0 <= i < self.conn.sent.len() ==> (self.conn.sent[i] matches RequestView::Execute(r)
                ==> numbered(r) && number(r) < self.statements)
        &&& forall|i: int, j: int|
            #![trigger self.conn.sent[i], self.conn.sent[j]]
            0 <= i < j < self.conn.sent.len() ==> (self.conn.sent[i] matches RequestView::Execute(
                r,
            ) ==> (self.conn.sent[j] matches RequestView::Execute(s) ==> number(r) < number(s)))
    }

    /// A statement that may be sent next.
    pub open spec fn fresh(self, request: SqlView) -> bool {
        &&& numbered(request)
        &&& number(request) < self.statements
        &&& forall|i: int|
            #![trigger self.conn.sent[i]]
            0 <= i < self.conn.sent.len() ==> (self.conn.sent[i] matches RequestView::Execute(r)
                ==> number(r) < number(request))
    }

    /// The storage with other replies on record.
    pub open spec fn with_answers(self, answers: Seq<AnswerView>) -> DbView {
        DbView { conn: ConnView { answers, ..self.conn }, ..self }
    }

    /// Nothing that was sent is taken back, the replies, the clock and the connection's kind
    /// stay as they are, no lock is released, no transaction is forgotten, and what the cache
    /// has an entry for keeps one.
    pub open spec fn grows_to(self, later: DbView) -> bool {
        &&& later.conn.answers == self.conn.answers
        &&& later.conn.use_test_transactions == self.conn.use_test_transactions
        &&& self.conn.sent.is_prefix_of(later.conn.sent)
        &&& later.timestamp == self.timestamp
        &&& later.statements >= self.statements
        &&& self.transaction is Some ==> later.transaction is Some
        &&& self.locks.dom().subset_of(later.locks.dom())
        &&& self.cache.ids.dom().subset_of(later.cache.ids.dom())
        &&& self.cache.names.dom().subset_of(later.cache.names.dom())
    }

    /// The locks and what they told stay as they are, and so does an open transaction.
    pub open spec fn keeps_to(self, later: DbView) -> bool {
        &&& later.locks == self.locks
        &&& later.modified == self.modified
        &&& self.transaction is Some ==> later.transaction == self.transaction
    }
}

/// What an operation does with more replies on record, against what it does with fewer: where
/// it came to an end, the same; where it was left waiting, the same requests and perhaps more.
pub open spec fn replays<T>(fewer: Step<T>, more: Step<T>, answers: Seq<AnswerView>) -> bool {
    if fewer.out == Err::<T, StopView>(StopView::Waiting) {
        fewer.db.conn.sent.is_prefix_of(more.db.conn.sent)
    } else {
        more == (Step { db: fewer.db.with_answers(answers), out: fewer.out })
    }
}

/// An operation that waits has sent one request for which no reply is on record; one that came
/// to an end has sent none.
pub open spec fn paced<T>(db: DbView, step: Step<T>) -> bool {
    db.conn.sent.len() <= db.conn.answers.len() ==> if step.out == Err::<T, StopView>(
        StopView::Waiting,
    ) {
        step.db.conn.sent.len() == step.db.conn.answers.len() + 1
    } else {
        step.db.conn.sent.len() <= step.db.conn.answers.len()
    }
}

/// An operation from `db` leads to `fewer`, and to `more` once `answers` are on record; both
/// runs keep what was there, number their statements in order and in an open transaction, and
/// wait for one request at most, and the second run repeats the first.
#[verifier::opaque]
pub open spec fn sound<T>(
    db: DbView,
    answers: Seq<AnswerView>,
    fewer: Step<T>,
    more: Step<T>,
) -> bool {
    &&& db.grows_to(fewer.db)
    &&& db.with_answers(answers).grows_to(more.db)
    &&& fewer.db.tidy()
    &&& more.db.tidy()
    &&& paced(db, fewer)
    &&& paced(db.with_answers(answers), more)
    &&& replays(fewer, more, answers)
}

/// A sound operation whose runs leave alone the locks, what they told, and a transaction that is
/// open.
#[verifier::opaque]
pub open spec fn steady<T>(
    db: DbView,
    answers: Seq<AnswerView>,
    fewer: Step<T>,
    more: Step<T>,
) -> bool {
    &&& sound(db, answers, fewer, more)
    &&& db.keeps_to(fewer.db)
    &&& db.with_answers(answers).keeps_to(more.db)
}

/// From where an operation goes on after a part of it.
spec fn onward<T>(fewer: Step<T>, more: Step<T>) -> DbView {
    if fewer.out is Ok {
        fewer.db
    } else {
        more.db
    }
}

broadcast use prefix_of_prefix;

/// Before anything was sent, a storage is tidy.
pub proof fn law_nothing_sent_is_tidy(db: DbView)
    requires
        db.conn.sent.len() == 0,
        0 <= db.statements <= u64::MAX,
    ensures
        db.tidy(),
{
}

/// What is known where an operation goes on after a steady part of it.
proof fn lemma_onward<T>(db: DbView, answers: Seq<AnswerView>, a: Step<T>, b: Step<T>)
    requires
        db.conn.answers.is_prefix_of(answers),
        steady(db, answers, a, b),
    ensures
        b.out is Ok ==> onward(a, b).tidy() && onward(a, b).conn.answers.is_prefix_of(answers),
        b.out is Ok ==> onward(a, b).with_answers(answers) == b.db,
        b.out is Ok ==> onward(a, b).timestamp == db.timestamp,
        a.out is Ok ==> b.out == a.out,
{
    reveal(sound);
    reveal(steady);
}

/// Two steady parts, one after the other, are steady.
proof fn lemma_seq<T, U>(
    db: DbView,
    answers: Seq<AnswerView>,
    a: Step<T>,
    b: Step<T>,
    x: Step<U>,
    y: Step<U>,
    c: Step<U>,
    d: Step<U>,
)
    requires
        db.conn.answers.is_prefix_of(answers),
        steady(db, answers, a, b),
        b.out is Ok ==> steady(onward(a, b), answers, x, y),
        match a.out {
            Ok(_) => c == x,
            Err(stop) => c == (Step { db: a.db, out: Err::<U, StopView>(stop) }),
        },
        match b.out {
            Ok(_) => d == y,
            Err(stop) => d == (Step { db: b.db, out: Err::<U, StopView>(stop) }),
        },
    ensures
        steady(db, answers, c, d),
{
    reveal(sound);
    reveal(steady);
}

proof fn lemma_begin(db: DbView, answers: Seq<AnswerView>, for_write: bool)
    requires
        db.tidy(),
        db.conn.answers.is_prefix_of(answers),
    ensures
        sound(db, answers, db.begin(for_write), db.with_answers(answers).begin(for_write)),
        db.begin(for_write).out is Ok ==> db.begin(for_write).db.transaction is Some,
        db.begin(for_write).db.locks == db.locks,
        db.begin(for_write).db.modified == db.modified,
{
    reveal(sound);
}

proof fn lemma_get_transaction(db: DbView, answers: Seq<AnswerView>)
    requires
        db.tidy(),
        db.conn.answers.is_prefix_of(answers),
    ensures
        steady(db, answers, db.get_transaction(), db.with_answers(answers).get_transaction()),
        db.get_transaction().out matches Ok(t) ==> t is Some,
        db.with_answers(answers).get_transaction().out matches Ok(t) ==> t is Some,
{
    reveal(sound);
    reveal(steady);
    lemma_begin(db, answers, true);
}

proof fn lemma_sql(db: DbView, answers: Seq<AnswerView>, sql: Seq<char>)
    requires
        db.tidy(),
        db.conn.answers.is_prefix_of(answers),
    ensures
        steady(db, answers, db.sql(sql), db.with_answers(answers).sql(sql)),
        db.sql(sql).out matches Ok(r) ==> db.sql(sql).db.fresh(r),
        db.with_answers(answers).sql(sql).out matches Ok(r) ==> db.with_answers(answers).sql(
            sql,
        ).db.fresh(r),
{
    reveal(sound);
    reveal(steady);
    lemma_get_transaction(db, answers);
    let fewer = db.get_transaction();
    let more = db.with_answers(answers).get_transaction();
    lemma_natural_round_trip(fewer.db.statements as nat);
    lemma_natural_round_trip(more.db.statements as nat);
}

proof fn lemma_execute(db: DbView, answers: Seq<AnswerView>, request: SqlView)
    requires
        db.tidy(),
        db.fresh(request),
        db.conn.answers.is_prefix_of(answers),
    ensures
        steady(db, answers, db.execute(request), db.with_answers(answers).execute(request)),
{
    reveal(sound);
    reveal(steady);
}

proof fn lemma_find(db: DbView, answers: Seq<AnswerView>, request: SqlView)
    requires
        db.tidy(),
        db.fresh(request),
        db.conn.answers.is_prefix_of(answers),
    ensures
        steady(db, answers, db.find(request), db.with_answers(answers).find(request)),
{
    reveal(sound);
    reveal(steady);
    lemma_execute(db, answers, request);
}

proof fn lemma_collection_sql(
    db: DbView,
    answers: Seq<AnswerView>,
    sql: Seq<char>,
    userid: Seq<char>,
    id: i32,
)
    requires
        db.tidy(),
        db.conn.answers.is_prefix_of(answers),
    ensures
        steady(
            db,
            answers,
            db.collection_sql(sql, userid, id),
            db.with_answers(answers).collection_sql(sql, userid, id),
        ),
        db.collection_sql(sql, userid, id).out matches Ok(r) ==> db.collection_sql(
            sql,
            userid,
            id,
        ).db.fresh(r),
        db.with_answers(answers).collection_sql(sql, userid, id).out matches Ok(r)
            ==> db.with_answers(answers).collection_sql(sql, userid, id).db.fresh(r),
{
    reveal(sound);
    reveal(steady);
    lemma_sql(db, answers, sql);
}

/// Looking up a collection id is [`steady`].
pub proof fn law_get_collection_id(db: DbView, answers: Seq<AnswerView>, name: Seq<char>)
    requires
        db.tidy(),
        db.conn.answers.is_prefix_of(answers),
    ensures
        steady(
            db,
            answers,
            db.get_collection_id(name),
            db.with_answers(answers).get_collection_id(name),
        ),
{
    reveal(sound);
    reveal(steady);
    let sql = "SELECT collectionid FROM collections WHERE name = @name"@;
    lemma_sql(db, answers, sql);
    let a = db.sql(sql);
    let b = db.with_answers(answers).sql(sql);
    if b.out is Ok {
        lemma_find(onward(a, b), answers, b.out->Ok_0.with("name"@, name));
    }
}

/// Creating a collection is [`steady`].
pub proof fn law_create_collection(db: DbView, answers: Seq<AnswerView>, name: Seq<char>)
    requires
        db.tidy(),
        db.conn.answers.is_prefix_of(answers),
    ensures
        steady(
            db,
            answers,
            db.create_collection(name),
            db.with_answers(answers).create_collection(name),
        ),
{
    reveal(sound);
    reveal(steady);
    let sql = "SELECT COALESCE(MAX(collectionid), 1) from collections"@;
    lemma_sql(db, answers, sql);
    let a = db.sql(sql);
    let b = db.with_answers(answers).sql(sql);
    if b.out is Ok {
        let d = onward(a, b);
        let request = b.out->Ok_0;
        lemma_execute(d, answers, request);
        let a = d.execute(request);
        let b = d.with_answers(answers).execute(request);
        if b.out is Ok {
            if let Ok(row) = one(b.out->Ok_0.rows) {
                if let Ok(max) = i32_cell(row, 0) {
                    if max != i32::MAX {
                        lemma_insert_collection(
                            onward(a, b),
                            answers,
                            new_collection_id(max),
                            name,
                        );
                    }
                }
            }
        }
    }
}

proof fn lemma_insert_collection(db: DbView, answers: Seq<AnswerView>, id: i32, name: Seq<char>)
    requires
        db.tidy(),
        db.conn.answers.is_prefix_of(answers),
    ensures
        steady(
            db,
            answers,
            db.insert_collection(id, name),
            db.with_answers(answers).insert_collection(id, name),
        ),
{
    reveal(sound);
    reveal(steady);
    let sql = "INSERT INTO collections (collectionid, name) VALUES (@collectionid, @name)"@;
    lemma_sql(db, answers, sql);
    let a = db.sql(sql);
    let b = db.with_answers(answers).sql(sql);
    if b.out is Ok {
        lemma_execute(
            onward(a, b),
            answers,
            b.out->Ok_0.with("name"@, name).with("collectionid"@, decimal(id as int)),
        );
    }
}

/// Looking up or creating a collection is [`steady`].
pub proof fn law_get_or_create_collection_id(db: DbView, answers: Seq<AnswerView>, name: Seq<char>)
    requires
        db.tidy(),
        db.conn.answers.is_prefix_of(answers),
    ensures
        steady(
            db,
            answers,
            db.get_or_create_collection_id(name),
            db.with_answers(answers).get_or_create_collection_id(name),
        ),
{
    reveal(sound);
    reveal(steady);
    law_get_collection_id(db, answers, name);
    let a = db.get_collection_id(name);
    let b = db.with_answers(answers).get_collection_id(name);
    if b.out == Err::<i32, StopView>(StopView::Failed(ErrorView::CollectionNotFound)) {
        law_create_collection(
            if a.out == b.out {
                a.db
            } else {
                b.db
            },
            answers,
            name,
        );
    }
}

proof fn lemma_run(db: DbView, answers: Seq<AnswerView>, sql: Seq<char>, userid: Seq<char>, id: i32)
    requires
        db.tidy(),
        db.conn.answers.is_prefix_of(answers),
    ensures
        steady(
            db,
            answers,
            db.run(sql, userid, id),
            db.with_answers(answers).run(sql, userid, id),
        ),
{
    reveal(sound);
    reveal(steady);
    lemma_collection_sql(db, answers, sql, userid, id);
    let a = db.collection_sql(sql, userid, id);
    let b = db.with_answers(answers).collection_sql(sql, userid, id);
    if b.out is Ok {
        lemma_execute(onward(a, b), answers, b.out->Ok_0);
    }
}

proof fn lemma_look(
    db: DbView,
    answers: Seq<AnswerView>,
    sql: Seq<char>,
    userid: Seq<char>,
    id: i32,
)
    requires
        db.tidy(),
        db.conn.answers.is_prefix_of(answers),
    ensures
        steady(
            db,
            answers,
            db.look(sql, userid, id),
            db.with_answers(answers).look(sql, userid, id),
        ),
{
    reveal(sound);
    reveal(steady);
    lemma_collection_sql(db, answers, sql, userid, id);
    let a = db.collection_sql(sql, userid, id);
    let b = db.with_answers(answers).collection_sql(sql, userid, id);
    if b.out is Ok {
        lemma_find(onward(a, b), answers, b.out->Ok_0);
    }
}

/// Asking when a collection was last modified is [`steady`].
pub proof fn law_get_collection_timestamp(
    db: DbView,
    answers: Seq<AnswerView>,
    user: u32,
    name: Seq<char>,
)
    requires
        db.tidy(),
        db.conn.answers.is_prefix_of(answers),
    ensures
        steady(
            db,
            answers,
            db.get_collection_timestamp(user, name),
            db.with_answers(answers).get_collection_timestamp(user, name),
        ),
{
    reveal(sound);
    reveal(steady);
    law_get_collection_id(db, answers, name);
    let a = db.get_collection_id(name);
    let b = db.with_answers(answers).get_collection_id(name);
    if b.out is Ok {
        let id = b.out->Ok_0;
        let d = onward(a, b);
        let sql = "SELECT last_modified FROM user_collections WHERE userid=@userid AND collection=@collectionid"@;
        lemma_look(d, answers, sql, natural(user as nat), id);
    }
}

proof fn lemma_end(db: DbView, answers: Seq<AnswerView>, request: RequestView)
    requires
        db.tidy(),
        db.conn.answers.is_prefix_of(answers),
        request !is Execute,
    ensures
        steady(
            db,
            answers,
            db.end(request),
            db.with_answers(answers).end(request),
        ),
{
    reveal(sound);
    reveal(steady);
}

/// Beginning a transaction is [`sound`].
pub proof fn law_begin(db: DbView, answers: Seq<AnswerView>, for_write: bool)
    requires
        db.tidy(),
        db.conn.answers.is_prefix_of(answers),
    ensures
        sound(
            db,
            answers,
            db.begin(for_write),
            db.with_answers(answers).begin(for_write),
        ),
{
    reveal(sound);
    lemma_begin(db, answers, for_write);
}

/// Committing is [`steady`].
pub proof fn law_commit(db: DbView, answers: Seq<AnswerView>)
    requires
        db.tidy(),
        db.conn.answers.is_prefix_of(answers),
    ensures
        steady(
            db,
            answers,
            db.commit(),
            db.with_answers(answers).commit(),
        ),
{
    reveal(sound);
    reveal(steady);
    lemma_get_transaction(db, answers);
    let a = db.get_transaction();
    let b = db.with_answers(answers).get_transaction();
    if b.out is Ok {
        lemma_end(onward(a, b), answers, RequestView::Commit(b.out->Ok_0->Some_0));
    }
}

/// Rolling back is [`steady`].
pub proof fn law_rollback(db: DbView, answers: Seq<AnswerView>)
    requires
        db.tidy(),
        db.conn.answers.is_prefix_of(answers),
    ensures
        steady(
            db,
            answers,
            db.rollback(),
            db.with_answers(answers).rollback(),
        ),
{
    reveal(sound);
    reveal(steady);
    lemma_get_transaction(db, answers);
    let a = db.get_transaction();
    let b = db.with_answers(answers).get_transaction();
    if b.out is Ok {
        lemma_end(onward(a, b), answers, RequestView::Rollback(b.out->Ok_0->Some_0));
    }
}

proof fn lemma_write_modified(
    db: DbView,
    answers: Seq<AnswerView>,
    sql: Seq<char>,
    param: Seq<char>,
    userid: Seq<char>,
    id: i32,
)
    requires
        db.tidy(),
        db.conn.answers.is_prefix_of(answers),
    ensures
        steady(
            db,
            answers,
            db.write_modified(sql, param, userid, id),
            db.with_answers(answers).write_modified(sql, param, userid, id),
        ),
{
    reveal(sound);
    reveal(steady);
    lemma_collection_sql(db, answers, sql, userid, id);
    let a = db.collection_sql(sql, userid, id);
    let b = db.with_answers(answers).collection_sql(sql, userid, id);
    if b.out is Ok {
        if let Ok(text) = text_of(db.timestamp) {
            lemma_execute(
                onward(a, b),
                answers,
                b.out->Ok_0.with(param, text).typed(param, SpannerType::Timestamp),
            );
        }
    }
}

/// Touching a collection is [`steady`].
pub proof fn law_touch_collection(db: DbView, answers: Seq<AnswerView>, user: u32, id: i32)
    requires
        db.tidy(),
        db.conn.answers.is_prefix_of(answers),
    ensures
        steady(
            db,
            answers,
            db.touch_collection(user, id),
            db.with_answers(answers).touch_collection(user, id),
        ),
{
    reveal(sound);
    reveal(steady);
    let userid = natural(user as nat);
    let sql = "SELECT 1 as count FROM user_collections WHERE userid = @userid AND collection = @collectionid;"@;
    lemma_look(db, answers, sql, userid, id);
    let a = db.look(sql, userid, id);
    let b = db.with_answers(answers).look(sql, userid, id);
    if b.out is Ok {
        let d = onward(a, b);
        lemma_write_modified(
            d,
            answers,
            "UPDATE user_collections SET last_modified=@last_modified WHERE userid=@userid AND collection=@collectionid"@,
            "last_modified"@,
            userid,
            id,
        );
        lemma_write_modified(
            d,
            answers,
            "INSERT INTO user_collections (userid, collection, last_modified) VALUES (@userid, @collectionid, @modified)"@,
            "modified"@,
            userid,
            id,
        );
    }
}

proof fn lemma_take_lock(
    db: DbView,
    answers: Seq<AnswerView>,
    user: u32,
    id: i32,
    lock: CollectionLock,
)
    requires
        db.tidy(),
        db.conn.answers.is_prefix_of(answers),
    ensures
        sound(
            db,
            answers,
            db.take_lock(user, id, lock),
            db.with_answers(answers).take_lock(user, id, lock),
        ),
{
    reveal(sound);
    reveal(steady);
    lemma_begin(db, answers, lock is Write);
    let a = db.begin(lock is Write);
    let b = db.with_answers(answers).begin(lock is Write);
    if b.out is Ok {
        let sql = "SELECT CURRENT_TIMESTAMP() as now, last_modified FROM user_collections WHERE userid=@userid AND collection=@collectionid"@;
        lemma_look(onward(a, b), answers, sql, natural(user as nat), id);
    }
}

/// Locking for reading is [`sound`].
pub proof fn law_lock_for_read(db: DbView, answers: Seq<AnswerView>, user: u32, name: Seq<char>)
    requires
        db.tidy(),
        db.conn.answers.is_prefix_of(answers),
    ensures
        sound(
            db,
            answers,
            db.lock_for_read(user, name),
            db.with_answers(answers).lock_for_read(user, name),
        ),
{
    reveal(sound);
    reveal(steady);
    law_get_collection_id(db, answers, name);
    let a = db.get_collection_id(name);
    let b = db.with_answers(answers).get_collection_id(name);
    let missing = Err::<i32, StopView>(StopView::Failed(ErrorView::CollectionNotFound));
    if b.out is Ok || b.out == missing {
        let id = if b.out is Ok {
            b.out->Ok_0
        } else {
            0
        };
        let d = if a.out == b.out {
            a.db
        } else {
            b.db
        };
        lemma_take_lock(d, answers, user, id, CollectionLock::Read);
    }
}

/// Locking for writing is [`sound`].
pub proof fn law_lock_for_write(db: DbView, answers: Seq<AnswerView>, user: u32, name: Seq<char>)
    requires
        db.tidy(),
        db.conn.answers.is_prefix_of(answers),
    ensures
        sound(
            db,
            answers,
            db.lock_for_write(user, name),
            db.with_answers(answers).lock_for_write(user, name),
        ),
{
    reveal(sound);
    reveal(steady);
    law_get_or_create_collection_id(db, answers, name);
    let a = db.get_or_create_collection_id(name);
    let b = db.with_answers(answers).get_or_create_collection_id(name);
    if b.out is Ok {
        lemma_take_lock(onward(a, b), answers, user, b.out->Ok_0, CollectionLock::Write);
    }
}

proof fn lemma_learn_names(
    db: DbView,
    answers: Seq<AnswerView>,
    uncached: Set<i32>,
    names: Map<i32, Seq<char>>,
    rows: Seq<RowView>,
)
    requires
        db.tidy(),
        db.conn.answers.is_prefix_of(answers),
    ensures
        steady(
            db,
            answers,
            db.learn_names(uncached, names, rows),
            db.with_answers(answers).learn_names(uncached, names, rows),
        ),
    decreases rows.len(),
{
    reveal(sound);
    reveal(steady);
    if rows.len() > 0 {
        if let (Ok(id), Ok(name)) = (must(i32_cell(rows[0], 0)), cell(rows[0], 1)) {
            if uncached.contains(id) {
                lemma_learn_names(
                    db.cache_put(id, name),
                    answers,
                    uncached,
                    names.insert(id, name),
                    rows.drop_first(),
                );
                assert(db.with_answers(answers).cache_put(id, name) == db.cache_put(
                    id,
                    name,
                ).with_answers(answers));
            } else {
                lemma_learn_names(db, answers, uncached, names, rows.drop_first());
            }
        }
    }
}

/// Looking up collection names is [`steady`].
pub proof fn law_load_collection_names(db: DbView, answers: Seq<AnswerView>, ids: Set<i32>)
    requires
        db.tidy(),
        db.conn.answers.is_prefix_of(answers),
    ensures
        steady(
            db,
            answers,
            db.load_collection_names(ids),
            db.with_answers(answers).load_collection_names(ids),
        ),
{
    reveal(sound);
    reveal(steady);
    let cached = db.cache.names.restrict(ids);
    let uncached = ids.difference(db.cache.names.dom());
    let sql = "SELECT collectionid, name FROM collections"@;
    lemma_sql(db, answers, sql);
    let a = db.sql(sql);
    let b = db.with_answers(answers).sql(sql);
    if b.out is Ok {
        let d = onward(a, b);
        let request = b.out->Ok_0;
        lemma_execute(d, answers, request);
        let a = d.execute(request);
        let b = d.with_answers(answers).execute(request);
        if b.out is Ok {
            lemma_learn_names(onward(a, b), answers, uncached, cached, b.out->Ok_0.rows);
        }
    }
}

/// Putting values under collection names is [`steady`].
pub proof fn law_map_collection_names<V>(db: DbView, answers: Seq<AnswerView>, by_id: Map<i32, V>)
    requires
        db.tidy(),
        db.conn.answers.is_prefix_of(answers),
    ensures
        steady(
            db,
            answers,
            db.map_collection_names(by_id),
            db.with_answers(answers).map_collection_names(by_id),
        ),
{
    reveal(sound);
    reveal(steady);
    law_load_collection_names(db, answers, by_id.dom());
}

proof fn lemma_by_collection<V>(
    db: DbView,
    answers: Seq<AnswerView>,
    sql: Seq<char>,
    user: u32,
    read: spec_fn(RowView) -> Result<(i32, V),
    StopView>,
)
    requires
        db.tidy(),
        db.conn.answers.is_prefix_of(answers),
        forall|row: RowView|
            #[trigger] read(row) != Err::<(i32, V), StopView>(StopView::Waiting),
    ensures
        steady(
            db,
            answers,
            db.by_collection(sql, user, read),
            db.with_answers(answers).by_collection(sql, user, read),
        ),
{
    reveal(sound);
    reveal(steady);
    lemma_sql(db, answers, sql);
    let a = db.sql(sql);
    let b = db.with_answers(answers).sql(sql);
    if b.out is Ok {
        let d = onward(a, b);
        let request = b.out->Ok_0.with("userid"@, natural(user as nat));
        lemma_execute(d, answers, request);
        let a = d.execute(request);
        let b = d.with_answers(answers).execute(request);
        if b.out is Ok {
            lemma_collect_ends(b.out->Ok_0.rows, read);
            if let Ok(by_id) = collect(b.out->Ok_0.rows, read) {
                law_map_collection_names(onward(a, b), answers, by_id);
            }
        }
    }
}

proof fn lemma_collect_ends<V>(
    rows: Seq<RowView>,
    read: spec_fn(RowView) -> Result<(i32, V), StopView>,
)
    requires
        forall|row: RowView|
            #[trigger] read(row) != Err::<(i32, V), StopView>(StopView::Waiting),
    ensures
        collect(rows, read) != Err::<Map<i32, V>, StopView>(StopView::Waiting),
    decreases rows.len(),
{
    if rows.len() > 0 {
        lemma_collect_ends(rows.drop_last(), read);
        assert(read(rows.last()) != Err::<(i32, V), StopView>(StopView::Waiting));
    }
}

/// Asking when the collections were last modified is [`steady`].
pub proof fn law_get_collection_timestamps(db: DbView, answers: Seq<AnswerView>, user: u32)
    requires
        db.tidy(),
        db.conn.answers.is_prefix_of(answers),
    ensures
        steady(
            db,
            answers,
            db.get_collection_timestamps(user),
            db.with_answers(answers).get_collection_timestamps(user),
        ),
{
    reveal(sound);
    reveal(steady);
    lemma_by_collection(
        db,
        answers,
        "SELECT collection, last_modified FROM user_collections WHERE userid=@userid"@,
        user,
        |row: RowView| stamp_row(row),
    );
}

/// Counting the objects of the collections is [`steady`].
pub proof fn law_get_collection_counts(db: DbView, answers: Seq<AnswerView>, user: u32)
    requires
        db.tidy(),
        db.conn.answers.is_prefix_of(answers),
    ensures
        steady(
            db,
            answers,
            db.get_collection_counts(user),
            db.with_answers(answers).get_collection_counts(user),
        ),
{
    reveal(sound);
    reveal(steady);
    lemma_by_collection(
        db,
        answers,
        "SELECT collection, COUNT(collection) FROM bso WHERE userid=@userid AND ttl > CURRENT_TIMESTAMP() GROUP BY collection"@,
        user,
        |row: RowView| number_row(row),
    );
}

/// Asking how much the collections hold is [`steady`].
pub proof fn law_get_collection_usage(db: DbView, answers: Seq<AnswerView>, user: u32)
    requires
        db.tidy(),
        db.conn.answers.is_prefix_of(answers),
    ensures
        steady(
            db,
            answers,
            db.get_collection_usage(user),
            db.with_answers(answers).get_collection_usage(user),
        ),
{
    reveal(sound);
    reveal(steady);
    lemma_by_collection(
        db,
        answers,
        "SELECT collection, SUM(LENGTH(payload)) FROM bso WHERE userid=@userid AND ttl > CURRENT_TIMESTAMP() GROUP BY collection"@,
        user,
        |row: RowView| number_row(row),
    );
}

/// Asking when the storage was last modified is [`steady`].
pub proof fn law_get_storage_timestamp(db: DbView, answers: Seq<AnswerView>, user: u32)
    requires
        db.tidy(),
        db.conn.answers.is_prefix_of(answers),
    ensures
        steady(
            db,
            answers,
            db.get_storage_timestamp(user),
            db.with_answers(answers).get_storage_timestamp(user),
        ),
{
    reveal(sound);
    reveal(steady);
    let sql = "SELECT COALESCE(MAX(last_modified), TIMESTAMP '0001-01-01T00:00:00Z') FROM user_collections WHERE userid=@userid"@;
    lemma_sql(db, answers, sql);
    let a = db.sql(sql);
    let b = db.with_answers(answers).sql(sql);
    if b.out is Ok {
        lemma_find(onward(a, b), answers, b.out->Ok_0.with("userid"@, natural(user as nat)));
    }
}

/// Asking how much the storage holds is [`steady`].
pub proof fn law_get_storage_usage(db: DbView, answers: Seq<AnswerView>, user: u32)
    requires
        db.tidy(),
        db.conn.answers.is_prefix_of(answers),
    ensures
        steady(
            db,
            answers,
            db.get_storage_usage(user),
            db.with_answers(answers).get_storage_usage(user),
        ),
{
    reveal(sound);
    reveal(steady);
    let sql = "SELECT SUM(LENGTH(payload)) FROM bso WHERE userid=@userid AND ttl > CURRENT_TIMESTAMP() GROUP BY userid"@;
    lemma_sql(db, answers, sql);
    let a = db.sql(sql);
    let b = db.with_answers(answers).sql(sql);
    if b.out is Ok {
        lemma_find(onward(a, b), answers, b.out->Ok_0.with("userid"@, natural(user as nat)));
    }
}

/// Deleting the storage is [`steady`].
pub proof fn law_delete_storage(db: DbView, answers: Seq<AnswerView>, user: u32)
    requires
        db.tidy(),
        db.conn.answers.is_prefix_of(answers),
    ensures
        steady(
            db,
            answers,
            db.delete_storage(user),
            db.with_answers(answers).delete_storage(user),
        ),
{
    reveal(sound);
    reveal(steady);
    let sql = "DELETE FROM user_collections WHERE userid=@userid"@;
    lemma_sql(db, answers, sql);
    let a = db.sql(sql);
    let b = db.with_answers(answers).sql(sql);
    if b.out is Ok {
        lemma_execute(onward(a, b), answers, b.out->Ok_0.with("userid"@, natural(user as nat)));
    }
}

/// The ids of a query change the parameters of a request alone.
proof fn lemma_with_ids(request: SqlView, ids: Seq<Seq<char>>)
    ensures
        with_ids(request, ids) == (SqlView { params: with_ids(request, ids).params, ..request }),
    decreases ids.len(),
{
    if ids.len() > 0 {
        lemma_with_ids(request, ids.drop_last());
    }
}

/// Getting a page of objects is [`steady`].
pub proof fn law_get_bsos(
    db: DbView,
    answers: Seq<AnswerView>,
    user: i32,
    name: Seq<char>,
    query: QueryView,
)
    requires
        db.tidy(),
        db.conn.answers.is_prefix_of(answers),
    ensures
        steady(
            db,
            answers,
            db.get_bsos(user, name, query),
            db.with_answers(answers).get_bsos(user, name, query),
        ),
{
    reveal(sound);
    reveal(steady);
    law_get_collection_id(db, answers, name);
    let a = db.get_collection_id(name);
    let b = db.with_answers(answers).get_collection_id(name);
    if b.out is Ok {
        let id = b.out->Ok_0;
        let d = onward(a, b);
        if let Ok(now) = text_of(d.timestamp) {
            lemma_sql(d, answers, query.sql());
            let a = d.sql(query.sql());
            let b = d.with_answers(answers).sql(query.sql());
            if b.out is Ok {
                let request = b.out->Ok_0;
                let bound = query.bind_all(request, user, id, now);
                assert(bound.seqno == request.seqno && bound.transaction == request.transaction)
                    by {
                    let first = request.with("userid"@, decimal(user as int)).with(
                        "collectionid"@,
                        decimal(id as int),
                    ).with("timestamp"@, now).typed("timestamp"@, SpannerType::Timestamp);
                    lemma_with_ids(
                        time_param(
                            time_param(first, "older"@, written(query.older)),
                            "newer"@,
                            written(query.newer),
                        ),
                        query.ids,
                    );
                }
                lemma_execute(onward(a, b), answers, bound);
            }
        }
    }
}

/// Getting a page of object ids is [`steady`].
pub proof fn law_get_bso_ids(
    db: DbView,
    answers: Seq<AnswerView>,
    user: i32,
    name: Seq<char>,
    query: QueryView,
)
    requires
        db.tidy(),
        db.conn.answers.is_prefix_of(answers),
    ensures
        steady(
            db,
            answers,
            db.get_bso_ids(user, name, query),
            db.with_answers(answers).get_bso_ids(user, name, query),
        ),
{
    reveal(sound);
    reveal(steady);
    law_get_bsos(db, answers, user, name, query);
}

proof fn lemma_find_bso(
    db: DbView,
    answers: Seq<AnswerView>,
    sql: Seq<char>,
    userid: Seq<char>,
    id: i32,
    bso: Seq<char>,
    param: Seq<char>,
)
    requires
        db.tidy(),
        db.conn.answers.is_prefix_of(answers),
    ensures
        steady(
            db,
            answers,
            db.find_bso(sql, userid, id, bso, param),
            db.with_answers(answers).find_bso(sql, userid, id, bso, param),
        ),
{
    reveal(sound);
    reveal(steady);
    lemma_collection_sql(db, answers, sql, userid, id);
    let a = db.collection_sql(sql, userid, id);
    let b = db.with_answers(answers).collection_sql(sql, userid, id);
    if b.out is Ok {
        if let Ok(now) = text_of(db.timestamp) {
            lemma_find(
                onward(a, b),
                answers,
                b.out->Ok_0.with("bsoid"@, bso).with(param, now).typed(
                    param,
                    SpannerType::Timestamp,
                ),
            );
        }
    }
}

/// Getting an object is [`steady`].
pub proof fn law_get_bso(
    db: DbView,
    answers: Seq<AnswerView>,
    user: u64,
    name: Seq<char>,
    bso: Seq<char>,
)
    requires
        db.tidy(),
        db.conn.answers.is_prefix_of(answers),
    ensures
        steady(
            db,
            answers,
            db.get_bso(user, name, bso),
            db.with_answers(answers).get_bso(user, name, bso),
        ),
{
    reveal(sound);
    reveal(steady);
    law_get_collection_id(db, answers, name);
    let a = db.get_collection_id(name);
    let b = db.with_answers(answers).get_collection_id(name);
    if b.out is Ok {
        lemma_find_bso(
            onward(a, b),
            answers,
            "SELECT id, modified, payload, coalesce(sortindex, 0), ttl FROM bso WHERE userid=@userid AND collection=@collectionid AND id=@bsoid AND ttl > @timestamp"@,
            natural(user as nat),
            b.out->Ok_0,
            bso,
            "timestamp"@,
        );
    }
}

/// Asking when an object was modified is [`steady`].
pub proof fn law_get_bso_timestamp(
    db: DbView,
    answers: Seq<AnswerView>,
    user: u32,
    name: Seq<char>,
    bso: Seq<char>,
)
    requires
        db.tidy(),
        db.conn.answers.is_prefix_of(answers),
    ensures
        steady(
            db,
            answers,
            db.get_bso_timestamp(user, name, bso),
            db.with_answers(answers).get_bso_timestamp(user, name, bso),
        ),
{
    reveal(sound);
    reveal(steady);
    law_get_collection_id(db, answers, name);
    let a = db.get_collection_id(name);
    let b = db.with_answers(answers).get_collection_id(name);
    if b.out is Ok {
        lemma_find_bso(
            onward(a, b),
            answers,
            "SELECT modified FROM bso WHERE collection=@collectionid AND userid=@userid AND id=@bsoid AND ttl>@ttl"@,
            natural(user as nat),
            b.out->Ok_0,
            bso,
            "ttl"@,
        );
    }
}

proof fn lemma_update_bso(
    db: DbView,
    answers: Seq<AnswerView>,
    userid: Seq<char>,
    id: i32,
    bso: PutView,
)
    requires
        db.tidy(),
        db.conn.answers.is_prefix_of(answers),
    ensures
        steady(
            db,
            answers,
            db.update_bso(userid, id, bso),
            db.with_answers(answers).update_bso(userid, id, bso),
        ),
{
    reveal(sound);
    reveal(steady);
    lemma_collection_sql(db, answers, bso.update_sql(), userid, id);
    let a = db.collection_sql(bso.update_sql(), userid, id);
    let b = db.with_answers(answers).collection_sql(bso.update_sql(), userid, id);
    if b.out is Ok {
        if let (Ok(expiry), Ok(modified)) = (
            bso.new_expiry_text(db.timestamp),
            text_of(db.timestamp),
        ) {
            lemma_execute(
                onward(a, b),
                answers,
                bso.bind_update(b.out->Ok_0, modified, expiry),
            );
        }
    }
}

proof fn lemma_insert_bso(
    db: DbView,
    answers: Seq<AnswerView>,
    userid: Seq<char>,
    id: i32,
    bso: PutView,
)
    requires
        db.tidy(),
        db.conn.answers.is_prefix_of(answers),
    ensures
        steady(
            db,
            answers,
            db.insert_bso(userid, id, bso),
            db.with_answers(answers).insert_bso(userid, id, bso),
        ),
{
    reveal(sound);
    reveal(steady);
    lemma_collection_sql(db, answers, bso.insert_sql(), userid, id);
    let a = db.collection_sql(bso.insert_sql(), userid, id);
    let b = db.with_answers(answers).collection_sql(bso.insert_sql(), userid, id);
    if b.out is Ok {
        if let (Ok(expiry), Ok(modified)) = (
            text_of(bso.first_expiry(db.timestamp)),
            text_of(db.timestamp),
        ) {
            lemma_execute(
                onward(a, b),
                answers,
                bso.bind_insert(b.out->Ok_0, modified, expiry),
            );
        }
    }
}

proof fn lemma_write_bso(
    db: DbView,
    answers: Seq<AnswerView>,
    userid: Seq<char>,
    id: i32,
    bso: PutView,
)
    requires
        db.tidy(),
        db.conn.answers.is_prefix_of(answers),
    ensures
        steady(
            db,
            answers,
            db.write_bso(userid, id, bso),
            db.with_answers(answers).write_bso(userid, id, bso),
        ),
{
    reveal(sound);
    reveal(steady);
    let sql = "SELECT 1 as count FROM bso WHERE userid = @userid AND collection = @collectionid AND id = @bsoid"@;
    lemma_collection_sql(db, answers, sql, userid, id);
    let a = db.collection_sql(sql, userid, id);
    let b = db.with_answers(answers).collection_sql(sql, userid, id);
    if b.out is Ok {
        let d = onward(a, b);
        let request = b.out->Ok_0.with("bsoid"@, bso.id);
        lemma_find(d, answers, request);
        let a = d.find(request);
        let b = d.with_answers(answers).find(request);
        if b.out is Ok {
            lemma_update_bso(onward(a, b), answers, userid, id, bso);
            lemma_insert_bso(onward(a, b), answers, userid, id, bso);
        }
    }
}

proof fn lemma_delete_entry(db: DbView, answers: Seq<AnswerView>, user: u32, id: i32)
    requires
        db.tidy(),
        db.conn.answers.is_prefix_of(answers),
    ensures
        steady(
            db,
            answers,
            db.delete_entry(user, id),
            db.with_answers(answers).delete_entry(user, id),
        ),
{
    let userid = natural(user as nat);
    let sql = "DELETE FROM user_collections WHERE userid=@userid AND collection=@collectionid"@;
    lemma_run(db, answers, sql, userid, id);
    let a = db.run(sql, userid, id);
    let b = db.with_answers(answers).run(sql, userid, id);
    lemma_onward(db, answers, a, b);
    let o = onward(a, b);
    if b.out is Ok {
        law_get_storage_timestamp(o, answers, user);
    }
    lemma_seq(
        db,
        answers,
        a,
        b,
        o.get_storage_timestamp(user),
        o.with_answers(answers).get_storage_timestamp(user),
        db.delete_entry(user, id),
        db.with_answers(answers).delete_entry(user, id),
    );
}

proof fn lemma_delete_objects(db: DbView, answers: Seq<AnswerView>, user: u32, id: i32)
    requires
        db.tidy(),
        db.conn.answers.is_prefix_of(answers),
    ensures
        steady(
            db,
            answers,
            db.delete_objects(user, id),
            db.with_answers(answers).delete_objects(user, id),
        ),
{
    let userid = natural(user as nat);
    let sql = "DELETE FROM bso WHERE userid=@userid AND collection=@collectionid"@;
    lemma_run(db, answers, sql, userid, id);
    let a = db.run(sql, userid, id);
    let b = db.with_answers(answers).run(sql, userid, id);
    lemma_onward(db, answers, a, b);
    let o = onward(a, b);
    if b.out is Ok {
        lemma_delete_entry(o, answers, user, id);
    }
    lemma_seq(
        db,
        answers,
        a,
        b,
        o.delete_entry(user, id),
        o.with_answers(answers).delete_entry(user, id),
        db.delete_objects(user, id),
        db.with_answers(answers).delete_objects(user, id),
    );
}

/// Deleting a collection is [`steady`].
pub proof fn law_delete_collection(db: DbView, answers: Seq<AnswerView>, user: u32, name: Seq<char>)
    requires
        db.tidy(),
        db.conn.answers.is_prefix_of(answers),
    ensures
        steady(
            db,
            answers,
            db.delete_collection(user, name),
            db.with_answers(answers).delete_collection(user, name),
        ),
{
    law_get_collection_id(db, answers, name);
    let a = db.get_collection_id(name);
    let b = db.with_answers(answers).get_collection_id(name);
    lemma_onward(db, answers, a, b);
    let o = onward(a, b);
    let id = b.out->Ok_0;
    if b.out is Ok {
        lemma_delete_objects(o, answers, user, id);
    }
    lemma_seq(
        db,
        answers,
        a,
        b,
        o.delete_objects(user, id),
        o.with_answers(answers).delete_objects(user, id),
        db.delete_collection(user, name),
        db.with_answers(answers).delete_collection(user, name),
    );
}

proof fn lemma_delete_row(
    db: DbView,
    answers: Seq<AnswerView>,
    user: u32,
    id: i32,
    bso: Seq<char>,
    touch: int,
)
    requires
        db.tidy(),
        db.conn.answers.is_prefix_of(answers),
    ensures
        steady(
            db,
            answers,
            db.delete_row(user, id, bso, touch),
            db.with_answers(answers).delete_row(user, id, bso, touch),
        ),
{
    reveal(sound);
    reveal(steady);
    let sql = "DELETE FROM bso WHERE userid=@userid AND collection=@collectionid AND id=@bsoid"@;
    lemma_collection_sql(db, answers, sql, natural(user as nat), id);
    let a = db.collection_sql(sql, natural(user as nat), id);
    let b = db.with_answers(answers).collection_sql(sql, natural(user as nat), id);
    if b.out is Ok {
        lemma_execute(onward(a, b), answers, b.out->Ok_0.with("bsoid"@, bso));
    }
}

proof fn lemma_touch_and_delete(
    db: DbView,
    answers: Seq<AnswerView>,
    user: u32,
    id: i32,
    bso: Seq<char>,
)
    requires
        db.tidy(),
        db.conn.answers.is_prefix_of(answers),
    ensures
        steady(
            db,
            answers,
            db.touch_and_delete(user, id, bso),
            db.with_answers(answers).touch_and_delete(user, id, bso),
        ),
{
    law_touch_collection(db, answers, user, id);
    let a = db.touch_collection(user, id);
    let b = db.with_answers(answers).touch_collection(user, id);
    lemma_onward(db, answers, a, b);
    let o = onward(a, b);
    let touch = b.out->Ok_0;
    if b.out is Ok {
        lemma_delete_row(o, answers, user, id, bso, touch);
    }
    lemma_seq(
        db,
        answers,
        a,
        b,
        o.delete_row(user, id, bso, touch),
        o.with_answers(answers).delete_row(user, id, bso, touch),
        db.touch_and_delete(user, id, bso),
        db.with_answers(answers).touch_and_delete(user, id, bso),
    );
}

/// Deleting an object is [`steady`].
pub proof fn law_delete_bso(
    db: DbView,
    answers: Seq<AnswerView>,
    user: u32,
    name: Seq<char>,
    bso: Seq<char>,
)
    requires
        db.tidy(),
        db.conn.answers.is_prefix_of(answers),
    ensures
        steady(
            db,
            answers,
            db.delete_bso(user, name, bso),
            db.with_answers(answers).delete_bso(user, name, bso),
        ),
{
    law_get_collection_id(db, answers, name);
    let a = db.get_collection_id(name);
    let b = db.with_answers(answers).get_collection_id(name);
    lemma_onward(db, answers, a, b);
    let o = onward(a, b);
    let id = b.out->Ok_0;
    if b.out is Ok {
        lemma_touch_and_delete(o, answers, user, id, bso);
    }
    lemma_seq(
        db,
        answers,
        a,
        b,
        o.touch_and_delete(user, id, bso),
        o.with_answers(answers).touch_and_delete(user, id, bso),
        db.delete_bso(user, name, bso),
        db.with_answers(answers).delete_bso(user, name, bso),
    );
}

proof fn lemma_look_for(db: DbView, answers: Seq<AnswerView>, user: u32, id: i32, bso: Seq<char>)
    requires
        db.tidy(),
        db.conn.answers.is_prefix_of(answers),
    ensures
        steady(
            db,
            answers,
            db.look_for(user, id, bso),
            db.with_answers(answers).look_for(user, id, bso),
        ),
{
    reveal(sound);
    reveal(steady);
    let sql = "SELECT 1 FROM bso WHERE userid=@userid AND collection=@collectionid AND id=@bsoid"@;
    lemma_collection_sql(db, answers, sql, natural(user as nat), id);
    let a = db.collection_sql(sql, natural(user as nat), id);
    let b = db.with_answers(answers).collection_sql(sql, natural(user as nat), id);
    if b.out is Ok {
        lemma_execute(onward(a, b), answers, b.out->Ok_0.with("bsoid"@, bso));
    }
}

/// An operation that comes to its end at once is [`steady`].
proof fn lemma_done<T>(db: DbView, answers: Seq<AnswerView>, out: Result<T, StopView>)
    requires
        db.tidy(),
        db.conn.answers.is_prefix_of(answers),
        out != Err::<T, StopView>(StopView::Waiting),
    ensures
        steady(db, answers, db.read(out), db.with_answers(answers).read(out)),
{
    reveal(sound);
    reveal(steady);
}

proof fn lemma_delete_each(
    db: DbView,
    answers: Seq<AnswerView>,
    user: u32,
    name: Seq<char>,
    id: i32,
    bsos: Seq<Seq<char>>,
)
    requires
        db.tidy(),
        db.conn.answers.is_prefix_of(answers),
    ensures
        steady(
            db,
            answers,
            db.delete_each(user, name, id, bsos),
            db.with_answers(answers).delete_each(user, name, id, bsos),
        ),
    decreases bsos.len(),
{
    if bsos.len() == 0 {
        lemma_done(db, answers, Ok::<(), StopView>(()));
    } else {
        let rest = bsos.drop_first();
        lemma_look_for(db, answers, user, id, bsos[0]);
        let a = db.look_for(user, id, bsos[0]);
        let b = db.with_answers(answers).look_for(user, id, bsos[0]);
        lemma_onward(db, answers, a, b);
        let o = onward(a, b);
        let p = o.delete_bso(user, name, bsos[0]);
        let q = o.with_answers(answers).delete_bso(user, name, bsos[0]);
        let x = next_step(p, p.db.delete_each(user, name, id, rest));
        let y = next_step(q, q.db.delete_each(user, name, id, rest));
        if b.out is Ok {
            law_delete_bso(o, answers, user, name, bsos[0]);
            lemma_onward(o, answers, p, q);
            let r = onward(p, q);
            if q.out is Ok {
                lemma_delete_each(r, answers, user, name, id, rest);
            }
            lemma_seq(
                o,
                answers,
                p,
                q,
                r.delete_each(user, name, id, rest),
                r.with_answers(answers).delete_each(user, name, id, rest),
                x,
                y,
            );
        }
        lemma_seq(
            db,
            answers,
            a,
            b,
            x,
            y,
            db.delete_each(user, name, id, bsos),
            db.with_answers(answers).delete_each(user, name, id, bsos),
        );
    }
}

/// What follows a part of an operation, unless that has stopped.
spec fn next_step<T, U>(part: Step<T>, next: Step<U>) -> Step<U> {
    match part.out {
        Ok(_) => next,
        Err(stop) => Step { db: part.db, out: Err(stop) },
    }
}

proof fn lemma_delete_all(
    db: DbView,
    answers: Seq<AnswerView>,
    user: u32,
    name: Seq<char>,
    id: i32,
    bsos: Seq<Seq<char>>,
)
    requires
        db.tidy(),
        db.conn.answers.is_prefix_of(answers),
    ensures
        steady(
            db,
            answers,
            db.delete_all(user, name, id, bsos),
            db.with_answers(answers).delete_all(user, name, id, bsos),
        ),
{
    lemma_delete_each(db, answers, user, name, id, bsos);
    let a = db.delete_each(user, name, id, bsos);
    let b = db.with_answers(answers).delete_each(user, name, id, bsos);
    lemma_onward(db, answers, a, b);
    let o = onward(a, b);
    let none = Err::<int, StopView>(StopView::Failed(ErrorView::BsoNotFound));
    if b.out is Ok {
        law_touch_collection(o, answers, user, id);
        lemma_done(o, answers, none);
    }
    let (x, y) = if bsos.len() > 0 {
        (o.touch_collection(user, id), o.with_answers(answers).touch_collection(user, id))
    } else {
        (o.read(none), o.with_answers(answers).read(none))
    };
    lemma_seq(
        db,
        answers,
        a,
        b,
        x,
        y,
        db.delete_all(user, name, id, bsos),
        db.with_answers(answers).delete_all(user, name, id, bsos),
    );
}

/// Deleting objects is [`steady`].
pub proof fn law_delete_bsos(
    db: DbView,
    answers: Seq<AnswerView>,
    user: u32,
    name: Seq<char>,
    bsos: Seq<Seq<char>>,
)
    requires
        db.tidy(),
        db.conn.answers.is_prefix_of(answers),
    ensures
        steady(
            db,
            answers,
            db.delete_bsos(user, name, bsos),
            db.with_answers(answers).delete_bsos(user, name, bsos),
        ),
{
    law_get_collection_id(db, answers, name);
    let a = db.get_collection_id(name);
    let b = db.with_answers(answers).get_collection_id(name);
    lemma_onward(db, answers, a, b);
    let o = onward(a, b);
    let id = b.out->Ok_0;
    if b.out is Ok {
        lemma_delete_all(o, answers, user, name, id, bsos);
    }
    lemma_seq(
        db,
        answers,
        a,
        b,
        o.delete_all(user, name, id, bsos),
        o.with_answers(answers).delete_all(user, name, id, bsos),
        db.delete_bsos(user, name, bsos),
        db.with_answers(answers).delete_bsos(user, name, bsos),
    );
}

/// A steady part whose value is put in the place of another is [`steady`].
proof fn lemma_as<T, U>(db: DbView, answers: Seq<AnswerView>, a: Step<T>, b: Step<T>, value: U)
    requires
        steady(db, answers, a, b),
    ensures
        steady(db, answers, next_step(a, a.db.done(value)), next_step(b, b.db.done(value))),
{
    reveal(sound);
    reveal(steady);
}

proof fn lemma_touch_and_write(
    db: DbView,
    answers: Seq<AnswerView>,
    user: u64,
    id: i32,
    bso: PutView,
)
    requires
        db.tidy(),
        db.conn.answers.is_prefix_of(answers),
    ensures
        steady(
            db,
            answers,
            db.touch_and_write(user, id, bso),
            db.with_answers(answers).touch_and_write(user, id, bso),
        ),
{
    let userid = natural(user as nat);
    law_touch_collection(db, answers, user as u32, id);
    let a = db.touch_collection(user as u32, id);
    let b = db.with_answers(answers).touch_collection(user as u32, id);
    lemma_onward(db, answers, a, b);
    let o = onward(a, b);
    let touch = b.out->Ok_0;
    let p = o.write_bso(userid, id, bso);
    let q = o.with_answers(answers).write_bso(userid, id, bso);
    if b.out is Ok {
        lemma_write_bso(o, answers, userid, id, bso);
        lemma_as(o, answers, p, q, touch);
    }
    lemma_seq(
        db,
        answers,
        a,
        b,
        next_step(p, p.db.done(touch)),
        next_step(q, q.db.done(touch)),
        db.touch_and_write(user, id, bso),
        db.with_answers(answers).touch_and_write(user, id, bso),
    );
}

/// Writing an object is [`steady`].
pub proof fn law_put_bso(
    db: DbView,
    answers: Seq<AnswerView>,
    user: u64,
    name: Seq<char>,
    bso: PutView,
)
    requires
        db.tidy(),
        db.conn.answers.is_prefix_of(answers),
    ensures
        steady(
            db,
            answers,
            db.put_bso(user, name, bso),
            db.with_answers(answers).put_bso(user, name, bso),
        ),
{
    law_get_or_create_collection_id(db, answers, name);
    let a = db.get_or_create_collection_id(name);
    let b = db.with_answers(answers).get_or_create_collection_id(name);
    lemma_onward(db, answers, a, b);
    let o = onward(a, b);
    let id = b.out->Ok_0;
    if b.out is Ok {
        lemma_touch_and_write(o, answers, user, id, bso);
    }
    lemma_seq(
        db,
        answers,
        a,
        b,
        o.touch_and_write(user, id, bso),
        o.with_answers(answers).touch_and_write(user, id, bso),
        db.put_bso(user, name, bso),
        db.with_answers(answers).put_bso(user, name, bso),
    );
}

/// The outcome of writing an object, which ends the writing of several only where it is neither
/// success nor failure.
spec fn settled(put: Step<int>) -> Step<Result<int, ErrorView>> {
    match put.out {
        Ok(touch) => put.db.done(Ok(touch)),
        Err(StopView::Failed(error)) => put.db.done(Err(error)),
        Err(stop) => Step { db: put.db, out: Err(stop) },
    }
}

proof fn lemma_settled(db: DbView, answers: Seq<AnswerView>, a: Step<int>, b: Step<int>)
    requires
        steady(db, answers, a, b),
    ensures
        steady(db, answers, settled(a), settled(b)),
{
    reveal(sound);
    reveal(steady);
}

/// The report once one more object was written or not.
spec fn reported(result: PostView, id: Seq<char>, put: Result<int, ErrorView>) -> PostView {
    match put {
        Ok(_) => PostView { success: result.success.push(id), ..result },
        Err(error) => PostView { failed: result.failed.insert(id, message(error)), ..result },
    }
}

proof fn lemma_post_each(
    db: DbView,
    answers: Seq<AnswerView>,
    user: u64,
    name: Seq<char>,
    bsos: Seq<PutView>,
    result: PostView,
)
    requires
        db.tidy(),
        db.conn.answers.is_prefix_of(answers),
    ensures
        steady(
            db,
            answers,
            db.post_each(user, name, bsos, result),
            db.with_answers(answers).post_each(user, name, bsos, result),
        ),
    decreases bsos.len(),
{
    if bsos.len() == 0 {
        lemma_done(db, answers, Ok::<PostView, StopView>(result));
    } else {
        let rest = bsos.drop_first();
        law_put_bso(db, answers, user, name, bsos[0]);
        lemma_settled(
            db,
            answers,
            db.put_bso(user, name, bsos[0]),
            db.with_answers(answers).put_bso(user, name, bsos[0]),
        );
        let a = settled(db.put_bso(user, name, bsos[0]));
        let b = settled(db.with_answers(answers).put_bso(user, name, bsos[0]));
        lemma_onward(db, answers, a, b);
        let o = onward(a, b);
        let next = reported(result, bsos[0].id, b.out->Ok_0);
        if b.out is Ok {
            lemma_post_each(o, answers, user, name, rest, next);
        }
        lemma_seq(
            db,
            answers,
            a,
            b,
            o.post_each(user, name, rest, next),
            o.with_answers(answers).post_each(user, name, rest, next),
            db.post_each(user, name, bsos, result),
            db.with_answers(answers).post_each(user, name, bsos, result),
        );
    }
}

proof fn lemma_post_all(
    db: DbView,
    answers: Seq<AnswerView>,
    user: u64,
    name: Seq<char>,
    id: i32,
    bsos: Seq<PutView>,
    failed: Map<Seq<char>, Seq<char>>,
)
    requires
        db.tidy(),
        db.conn.answers.is_prefix_of(answers),
    ensures
        steady(
            db,
            answers,
            db.post_all(user, name, id, bsos, failed),
            db.with_answers(answers).post_all(user, name, id, bsos, failed),
        ),
{
    let start = PostView { modified: db.timestamp, success: Seq::empty(), failed };
    lemma_post_each(db, answers, user, name, bsos, start);
    let a = db.post_each(user, name, bsos, start);
    let b = db.with_answers(answers).post_each(user, name, bsos, start);
    lemma_onward(db, answers, a, b);
    let o = onward(a, b);
    let result = b.out->Ok_0;
    let p = o.touch_collection(user as u32, id);
    let q = o.with_answers(answers).touch_collection(user as u32, id);
    if b.out is Ok {
        law_touch_collection(o, answers, user as u32, id);
        lemma_as(o, answers, p, q, result);
    }
    lemma_seq(
        db,
        answers,
        a,
        b,
        next_step(p, p.db.done(result)),
        next_step(q, q.db.done(result)),
        db.post_all(user, name, id, bsos, failed),
        db.with_answers(answers).post_all(user, name, id, bsos, failed),
    );
}

/// Writing objects is [`steady`].
pub proof fn law_post_bsos(
    db: DbView,
    answers: Seq<AnswerView>,
    user: u64,
    name: Seq<char>,
    bsos: Seq<PutView>,
    failed: Map<Seq<char>, Seq<char>>,
)
    requires
        db.tidy(),
        db.conn.answers.is_prefix_of(answers),
    ensures
        steady(
            db,
            answers,
            db.post_bsos(user, name, bsos, failed),
            db.with_answers(answers).post_bsos(user, name, bsos, failed),
        ),
{
    law_get_or_create_collection_id(db, answers, name);
    let a = db.get_or_create_collection_id(name);
    let b = db.with_answers(answers).get_or_create_collection_id(name);
    lemma_onward(db, answers, a, b);
    let o = onward(a, b);
    let id = b.out->Ok_0;
    if b.out is Ok {
        lemma_post_all(o, answers, user, name, id, bsos, failed);
    }
    lemma_seq(
        db,
        answers,
        a,
        b,
        o.post_all(user, name, id, bsos, failed),
        o.with_answers(answers).post_all(user, name, id, bsos, failed),
        db.post_bsos(user, name, bsos, failed),
        db.with_answers(answers).post_bsos(user, name, bsos, failed),
    );
}

} // verus!
