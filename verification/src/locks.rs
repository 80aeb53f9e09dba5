//! Locking collections.

use vstd::prelude::*;

use crate::conn::RowView;
use crate::db::{follows, CollectionLock, DbView, SpannerDb, Step};
use crate::decimal::{natural, natural_text};
use crate::error::{DbError, DbErrorKind, ErrorView, Stop, StopView};
use crate::params::LockCollection;
use crate::rows::{stamp_at, stamp_cell};
use crate::timestamp::SyncTimestamp;

verus! {

impl DbView {
    /// The session with a collection locked, and with when the collection was last modified if
    /// that is known.
    pub open spec fn locked(
        self,
        user: u32,
        collection_id: i32,
        lock: CollectionLock,
        modified: Option<int>,
    ) -> DbView {
        DbView {
            locks: self.locks.insert((user, collection_id), lock),
            modified: match modified {
                Some(modified) => self.modified.insert((user, collection_id), modified),
                None => self.modified,
            },
            ..self
        }
    }

    /// Begins a transaction for a lock. What comes out is the row of the user's collection, if
    /// there is one: the server's current time, and when the collection was last modified.
    pub open spec fn lock_row(self, user: u32, collection_id: i32, lock: CollectionLock) -> Step<
        Option<RowView>,
    > {
        self.begin(lock is Write).and_then(
            |db: DbView, _u: ()|
                db.look(
                    "SELECT CURRENT_TIMESTAMP() as now, last_modified FROM user_collections WHERE userid=@userid AND collection=@collectionid"@,
                    natural(user as nat),
                    collection_id,
                ),
        )
    }

    /// Begins a transaction and takes a lock in it. When the collection was last modified is
    /// kept in the session.
    pub open spec fn take_lock(self, user: u32, collection_id: i32, lock: CollectionLock) -> Step<
        (),
    > {
        self.lock_row(user, collection_id, lock).and_then(
            |db: DbView, row: Option<RowView>|
                match row {
                    None => db.locked(user, collection_id, lock, None).done(()),
                    Some(row) => db.read(stamp_cell(row, 1)).and_then(
                        |db: DbView, modified: int|
                            db.locked(user, collection_id, lock, Some(modified)).done(()),
                    ),
                },
        )
    }

    /// Locks a collection for reading, unless it is locked already. A collection that does not
    /// exist is locked under the id 0, so that it will continue to not exist.
    pub open spec fn lock_for_read(self, user: u32, name: Seq<char>) -> Step<()> {
        let found = self.get_collection_id(name);
        let id = match found.out {
            Err(StopView::Failed(ErrorView::CollectionNotFound)) => found.db.done(0i32),
            _ => found,
        };
        id.and_then(
            |db: DbView, id: i32|
                if db.locks.contains_key((user, id)) {
                    db.done(())
                } else {
                    db.take_lock(user, id, CollectionLock::Read)
                },
        )
    }

    /// Locks a collection for writing; it is created where it does not exist. One that is
    /// locked for reading is refused.
    pub open spec fn lock_for_write(self, user: u32, name: Seq<char>) -> Step<()> {
        self.get_or_create_collection_id(name).and_then(
            |db: DbView, id: i32|
                if db.locks.contains_key((user, id)) && db.locks[(user, id)] is Read {
                    db.fail(ErrorView::Internal("Can't escalate read-lock to write-lock"@))
                } else {
                    db.take_lock(user, id, CollectionLock::Write)
                },
        )
    }
}

impl SpannerDb {
    /// Begins a transaction and takes a lock in it.
    fn take_lock(&mut self, user_id: u32, collection_id: i32, lock: CollectionLock) -> (done:
        Result<(), Stop>)
        ensures
            follows(old(self)@.take_lock(user_id, collection_id, lock), *final(self), done),
    {
        // Lock the db
        let for_write = match lock {
            CollectionLock::Read => false,
            CollectionLock::Write => true,
        };
        self.begin(for_write)?;
        let request = self.collection_sql(
            "SELECT CURRENT_TIMESTAMP() as now, last_modified FROM user_collections WHERE userid=@userid AND collection=@collectionid",
            natural_text(user_id as u64),
            collection_id,
        )?;
        let result = self.execute(request)?;
        let modified: Option<SyncTimestamp> = match result.one_or_none()? {
            Some(row) => Some(stamp_at(row, 1)?),
            None => None,
        };
        self.hold_lock(user_id, collection_id, lock, modified);
        Ok(())
    }

    /// Keeps a lock in the session, and when the collection was last modified if that is known.
    pub fn hold_lock(
        &mut self,
        user_id: u32,
        collection_id: i32,
        lock: CollectionLock,
        modified: Option<SyncTimestamp>,
    )
        ensures
            final(self)@ == old(self)@.locked(user_id, collection_id, lock, modified.deep_view()),
    {
        if let Some(modified) = modified {
            self.inner.session.coll_modified_cache.insert((user_id, collection_id), modified);
        }
        self.inner.session.coll_locks.insert((user_id, collection_id), lock);
    }

    /// Locks a collection for reading.
    pub fn lock_for_read_sync(&mut self, params: LockCollection) -> (done: Result<(), Stop>)
        ensures
            follows(
                old(self)@.lock_for_read(params.user_id.id32(), params.collection@),
                *final(self),
                done,
            ),
    {
        let user_id = params.user_id.as_u32();
        let collection_id: i32 = match self.get_collection_id(&params.collection) {
            Ok(id) => id,
            Err(Stop::Failed(error)) => match error.kind() {
                // If the collection doesn't exist, we still want to start a
                // transaction so it will continue to not exist.
                DbErrorKind::CollectionNotFound => 0,
                _ => return Err(Stop::Failed(error)),
            },
            Err(stop) => return Err(stop),
        };
        // If we already have a read or write lock then it's safe to
        // use it as-is.
        if self.inner.session.coll_locks.get(&(user_id, collection_id)).is_some() {
            return Ok(());
        }
        self.take_lock(user_id, collection_id, CollectionLock::Read)
    }

    /// Locks a collection for writing.
    pub fn lock_for_write_sync(&mut self, params: LockCollection) -> (done: Result<(), Stop>)
        ensures
            follows(
                old(self)@.lock_for_write(params.user_id.id32(), params.collection@),
                *final(self),
                done,
            ),
    {
        let user_id = params.user_id.as_u32();
        let collection_id = self.get_or_create_collection_id(&params.collection)?;
        if let Some(CollectionLock::Read) = self.inner.session.coll_locks.get(
            &(user_id, collection_id),
        ) {
            return Err(Stop::Failed(DbError::internal("Can't escalate read-lock to write-lock")));
        }
        self.take_lock(user_id, collection_id, CollectionLock::Write)
    }
}

} // verus!
