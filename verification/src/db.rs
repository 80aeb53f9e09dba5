//! A database session: its transaction, its statements, its clock.

use vstd::prelude::*;

use crate::cache::{CacheView, CollectionCache};
use crate::conn::{
    Conn, ConnView, ExecuteSqlRequest, Request, RequestView, ResultSetView, SqlView, SyncResultSet,
    TransactionMode, TransactionSelector,
};
use crate::decimal::{natural, natural_text};
use crate::error::{outcome, DbError, ErrorView, Stop, StopView};
use crate::table::{Table, Value};
use crate::timestamp::SyncTimestamp;

verus! {

/// How a collection is locked.
#[derive(Clone, Copy, Debug, PartialEq, Eq, Structural)]
pub enum CollectionLock {
    Read,
    Write,
}

impl DeepView for CollectionLock {
    type V = CollectionLock;

    open spec fn deep_view(&self) -> CollectionLock {
        *self
    }
}

impl Value for CollectionLock {
    fn duplicate(&self) -> (copy: Self) {
        *self
    }
}

/// Per session metadata.
#[derive(Debug)]
pub struct SpannerDbSession {
    /// The "current time" on the server used for this session's operations.
    pub timestamp: SyncTimestamp,
    /// Cache of collection modified timestamps per (user_id, collection_id).
    pub coll_modified_cache: Table<(u32, i32), SyncTimestamp>,
    /// Currently locked collections.
    pub coll_locks: Table<(u32, i32), CollectionLock>,
    /// The transaction that is open.
    pub transaction: Option<TransactionSelector>,
    /// How many statements were made.
    pub execute_sql_count: u64,
}

/// A connection with its session.
#[derive(Debug)]
pub struct SpannerDbInner {
    pub conn: Conn,
    pub session: SpannerDbSession,
}

/// The storage, on one connection.
#[derive(Debug)]
pub struct SpannerDb {
    pub inner: SpannerDbInner,
    /// Pool level cache of collection_ids and their names.
    pub coll_cache: CollectionCache,
}

/// A `SpannerDb` in terms of views.
pub struct DbView {
    pub conn: ConnView,
    pub timestamp: int,
    pub modified: Map<(u32, i32), int>,
    pub locks: Map<(u32, i32), CollectionLock>,
    pub transaction: Option<Option<Seq<char>>>,
    pub statements: int,
    pub cache: CacheView,
}

impl DeepView for SpannerDb {
    type V = DbView;

    open spec fn deep_view(&self) -> DbView {
        DbView {
            conn: self.inner.conn@,
            timestamp: self.inner.session.timestamp@,
            modified: self.inner.session.coll_modified_cache@,
            locks: self.inner.session.coll_locks@,
            transaction: self.inner.session.transaction.deep_view(),
            statements: self.inner.session.execute_sql_count as int,
            cache: self.coll_cache@,
        }
    }
}

impl View for SpannerDb {
    type V = DbView;

    open spec fn view(&self) -> DbView {
        self.deep_view()
    }
}

impl Clone for SpannerDb {
    fn clone(&self) -> (copy: Self)
        ensures
            copy@ == self@,
    {
        let session = &self.inner.session;
        SpannerDb {
            inner: SpannerDbInner {
                conn: self.inner.conn.duplicate(),
                session: SpannerDbSession {
                    timestamp: session.timestamp,
                    coll_modified_cache: session.coll_modified_cache.clone(),
                    coll_locks: session.coll_locks.clone(),
                    transaction: session.transaction.duplicate(),
                    execute_sql_count: session.execute_sql_count,
                },
            },
            coll_cache: self.coll_cache.duplicate(),
        }
    }
}

/// Where a part of an operation leads: the storage after it, and what comes out of it.
pub struct Step<T> {
    pub db: DbView,
    pub out: Result<T, StopView>,
}

impl<T> Step<T> {
    /// What `next` leads to from here, unless the operation has stopped.
    pub open spec fn and_then<U>(self, next: spec_fn(DbView, T) -> Step<U>) -> Step<U> {
        match self.out {
            Ok(value) => next(self.db, value),
            Err(stop) => Step { db: self.db, out: Err(stop) },
        }
    }
}

impl DbView {
    /// The operation goes on with `value`.
    pub open spec fn done<T>(self, value: T) -> Step<T> {
        Step { db: self, out: Ok(value) }
    }

    /// The operation fails.
    pub open spec fn fail<T>(self, error: ErrorView) -> Step<T> {
        Step { db: self, out: Err(StopView::Failed(error)) }
    }

    /// The operation cannot go on.
    pub open spec fn fault<T>(self) -> Step<T> {
        Step { db: self, out: Err(StopView::Fault) }
    }

    /// The operation goes on with what was computed, or fails with its error.
    pub open spec fn lift<T>(self, value: Result<T, ErrorView>) -> Step<T> {
        match value {
            Ok(value) => self.done(value),
            Err(error) => self.fail(error),
        }
    }

    /// The operation goes on with what was read, or stops.
    pub open spec fn read<T>(self, value: Result<T, StopView>) -> Step<T> {
        Step { db: self, out: value }
    }

    /// Sends a request and begins a transaction with the reply.
    pub open spec fn begin(self, for_write: bool) -> Step<()> {
        let mode = if for_write {
            TransactionMode::ReadWrite
        } else {
            TransactionMode::ReadOnly
        };
        let db = DbView { conn: self.conn.send(RequestView::Begin(mode)), ..self };
        match self.conn.receive() {
            Ok(reply) => DbView { transaction: Some(reply.transaction_id), ..db }.done(()),
            Err(stop) => Step { db, out: Err(stop) },
        }
    }

    /// The open transaction; a read-write one is begun where none is open.
    pub open spec fn get_transaction(self) -> Step<Option<Option<Seq<char>>>> {
        if self.transaction is Some {
            self.done(self.transaction)
        } else {
            self.begin(true).and_then(|db: DbView, _u: ()| db.done(db.transaction))
        }
    }

    /// A request for a statement, in the open transaction and with the next sequence number.
    pub open spec fn sql(self, sql: Seq<char>) -> Step<SqlView> {
        self.get_transaction().and_then(
            |db: DbView, transaction: Option<Option<Seq<char>>>|
                if db.statements >= u64::MAX {
                    db.fault()
                } else {
                    DbView { statements: db.statements + 1, ..db }.done(
                        SqlView {
                            sql,
                            transaction,
                            seqno: natural(db.statements as nat),
                            params: Map::empty(),
                            param_types: Map::empty(),
                        },
                    )
                },
        )
    }

    /// Sends a statement and gives what it returned.
    pub open spec fn execute(self, request: SqlView) -> Step<ResultSetView> {
        let db = DbView { conn: self.conn.send(RequestView::Execute(request)), ..self };
        match self.conn.receive() {
            Ok(reply) => db.done(reply.result),
            Err(stop) => Step { db, out: Err(stop) },
        }
    }

    /// Commits the open transaction. Transactions for a test are left as they are.
    pub open spec fn commit(self) -> Step<()> {
        if self.conn.use_test_transactions {
            self.done(())
        } else {
            self.get_transaction().and_then(
                |db: DbView, transaction: Option<Option<Seq<char>>>|
                    match transaction {
                        Some(id) => db.end(RequestView::Commit(id)),
                        None => db.fail(ErrorView::Internal("No transaction to commit"@)),
                    },
            )
        }
    }

    /// Rolls the open transaction back.
    pub open spec fn rollback(self) -> Step<()> {
        self.get_transaction().and_then(
            |db: DbView, transaction: Option<Option<Seq<char>>>|
                match transaction {
                    Some(id) => db.end(RequestView::Rollback(id)),
                    None => db.fail(ErrorView::Internal("No transaction to rollback"@)),
                },
        )
    }

    /// Sends a request of which only success counts.
    pub open spec fn end(self, request: RequestView) -> Step<()> {
        let db = DbView { conn: self.conn.send(request), ..self };
        match self.conn.receive() {
            Ok(_) => db.done(()),
            Err(stop) => Step { db, out: Err(stop) },
        }
    }
}

/// The storage and the outcome of an operation are those of a step.
pub open spec fn follows<T: DeepView>(
    step: Step<T::V>,
    db: SpannerDb,
    result: Result<T, Stop>,
) -> bool {
    &&& db@ == step.db
    &&& outcome(result) == step.out
}

impl SpannerDb {
    /// The storage on a connection, with a new session: `timestamp` is the current time on the
    /// server, at which the session's operations read and write.
    pub fn new(conn: Conn, coll_cache: CollectionCache, timestamp: SyncTimestamp) -> (db: SpannerDb)
        ensures
            db@ == (DbView {
                conn: conn@,
                timestamp: timestamp@,
                modified: Map::empty(),
                locks: Map::empty(),
                transaction: None,
                statements: 0,
                cache: coll_cache@,
            }),
    {
        SpannerDb {
            inner: SpannerDbInner {
                conn,
                session: SpannerDbSession {
                    timestamp,
                    coll_modified_cache: Table::new(),
                    coll_locks: Table::new(),
                    transaction: None,
                    execute_sql_count: 0,
                },
            },
            coll_cache,
        }
    }

    /// The session's current time.
    pub fn timestamp(&self) -> (timestamp: SyncTimestamp)
        ensures
            timestamp@ == self@.timestamp,
    {
        self.inner.session.timestamp
    }

    /// Sets the session's current time.
    pub fn set_timestamp(&mut self, timestamp: SyncTimestamp)
        ensures
            final(self)@ == (DbView { timestamp: timestamp@, ..old(self)@ }),
    {
        self.inner.session.timestamp = timestamp;
    }

    /// Begins a transaction.
    pub fn begin(&mut self, for_write: bool) -> (done: Result<(), Stop>)
        ensures
            follows(old(self)@.begin(for_write), *final(self), done),
    {
        let mode = if for_write {
            TransactionMode::ReadWrite
        } else {
            TransactionMode::ReadOnly
        };
        let reply = self.inner.conn.ask(Request::Begin(mode))?;
        self.inner.session.transaction = Some(TransactionSelector { id: reply.transaction_id });
        Ok(())
    }

    /// The transaction that is open; where none is, a read-write transaction is begun.
    pub fn get_transaction(&mut self) -> (transaction: Result<Option<TransactionSelector>, Stop>)
        ensures
            follows(old(self)@.get_transaction(), *final(self), transaction),
    {
        if self.inner.session.transaction.is_some() {
            Ok(self.inner.session.transaction.duplicate())
        } else {
            self.begin(true)?;
            Ok(self.inner.session.transaction.duplicate())
        }
    }

    /// A request for a statement, without parameters yet.
    pub fn sql(&mut self, sql: &str) -> (request: Result<ExecuteSqlRequest, Stop>)
        ensures
            follows(old(self)@.sql(sql@), *final(self), request),
    {
        let transaction = self.get_transaction()?;
        let seqno = self.inner.session.execute_sql_count;
        if seqno == u64::MAX {
            return Err(Stop::Fault);
        }
        self.inner.session.execute_sql_count = seqno + 1;
        Ok(
            ExecuteSqlRequest {
                sql: sql.to_owned(),
                transaction,
                seqno: natural_text(seqno),
                params: Table::new(),
                param_types: Table::new(),
            },
        )
    }

    /// Sends a statement.
    pub fn execute(&mut self, request: ExecuteSqlRequest) -> (result: Result<SyncResultSet, Stop>)
        ensures
            follows(old(self)@.execute(request.deep_view()), *final(self), result),
    {
        let reply = self.inner.conn.ask(Request::Execute(request))?;
        Ok(reply.result)
    }

    /// Commits the open transaction.
    pub fn commit_sync(&mut self) -> (done: Result<(), Stop>)
        ensures
            follows(old(self)@.commit(), *final(self), done),
    {
        if self.inner.conn.use_test_transactions() {
            // don't commit test transactions
            return Ok(());
        }
        match self.get_transaction()? {
            Some(transaction) => {
                self.inner.conn.ask(Request::Commit(transaction.id))?;
                Ok(())
            },
            None => Err(Stop::Failed(DbError::internal("No transaction to commit"))),
        }
    }

    /// Rolls the open transaction back.
    pub fn rollback_sync(&mut self) -> (done: Result<(), Stop>)
        ensures
            follows(old(self)@.rollback(), *final(self), done),
    {
        match self.get_transaction()? {
            Some(transaction) => {
                self.inner.conn.ask(Request::Rollback(transaction.id))?;
                Ok(())
            },
            None => Err(Stop::Failed(DbError::internal("No transaction to rollback"))),
        }
    }
}

} // verus!
