//! Collections: their ids and names, and when they were last modified.

use vstd::prelude::*;

use crate::conn::{ExecuteSqlRequest, ResultSetView, RowView, SpannerType, SqlView};
use crate::db::{follows, DbView, SpannerDb, Step};
use crate::decimal::{decimal, decimal_text, natural, natural_text};
use crate::error::{DbError, DbErrorKind, ErrorView, Stop, StopView};
use crate::params::GetCollectionTimestamp;
use crate::rows::{i32_at, i32_cell, one, one_or_none, stamp_at, stamp_cell};
use crate::timestamp::{reads_back, text_of, to_rfc3339, SyncTimestamp};

verus! {

/// The id of a new collection where the greatest id is `max`. Ids below 100 are not given out.
pub open spec fn new_collection_id(max: i32) -> i32 {
    if max + 1 < 100 {
        100
    } else {
        (max + 1) as i32
    }
}

impl DbView {
    /// A statement about one collection of one user.
    pub open spec fn collection_sql(
        self,
        sql: Seq<char>,
        userid: Seq<char>,
        collection_id: i32,
    ) -> Step<SqlView> {
        self.sql(sql).and_then(
            |db: DbView, request: SqlView|
                db.done(
                    request.with("userid"@, userid).with(
                        "collectionid"@,
                        decimal(collection_id as int),
                    ),
                ),
        )
    }

    /// Runs a statement that returns one row or none.
    pub open spec fn find(self, request: SqlView) -> Step<Option<RowView>> {
        self.execute(request).and_then(
            |db: DbView, result: ResultSetView| db.lift(one_or_none(result.rows)),
        )
    }

    /// Runs a statement about one collection of one user that has no more parameters.
    pub open spec fn run(self, sql: Seq<char>, userid: Seq<char>, collection_id: i32) -> Step<
        ResultSetView,
    > {
        self.collection_sql(sql, userid, collection_id).and_then(
            |db: DbView, request: SqlView| db.execute(request),
        )
    }

    /// Runs such a statement that returns one row or none.
    pub open spec fn look(self, sql: Seq<char>, userid: Seq<char>, collection_id: i32) -> Step<
        Option<RowView>,
    > {
        self.collection_sql(sql, userid, collection_id).and_then(
            |db: DbView, request: SqlView| db.find(request),
        )
    }

    /// Enters a collection into the cache.
    pub open spec fn cache_put(self, id: i32, name: Seq<char>) -> DbView {
        DbView { cache: self.cache.put(id, name), ..self }
    }

    /// The id of the collection of that name: from the cache, else from the database and then
    /// into the cache.
    pub open spec fn get_collection_id(self, name: Seq<char>) -> Step<i32> {
        if self.cache.ids.contains_key(name) {
            self.done(self.cache.ids[name])
        } else {
            self.sql("SELECT collectionid FROM collections WHERE name = @name"@).and_then(
                |db: DbView, request: SqlView| db.find(request.with("name"@, name)),
            ).and_then(
                |db: DbView, row: Option<RowView>|
                    match row {
                        None => db.fail(ErrorView::CollectionNotFound),
                        Some(row) => db.read(i32_cell(row, 0)),
                    },
            ).and_then(|db: DbView, id: i32| db.cache_put(id, name).done(id))
        }
    }

    /// Creates a collection, with the id after the greatest there is, and with 100 at least.
    pub open spec fn create_collection(self, name: Seq<char>) -> Step<i32> {
        self.sql("SELECT COALESCE(MAX(collectionid), 1) from collections"@).and_then(
            |db: DbView, request: SqlView| db.execute(request),
        ).and_then(
            |db: DbView, result: ResultSetView| db.lift(one(result.rows)),
        ).and_then(
            |db: DbView, row: RowView| db.read(i32_cell(row, 0)),
        ).and_then(
            |db: DbView, max: i32|
                if max == i32::MAX {
                    db.fault()
                } else {
                    db.insert_collection(new_collection_id(max), name)
                },
        )
    }

    /// Writes a collection to the database, then to the cache.
    pub open spec fn insert_collection(self, id: i32, name: Seq<char>) -> Step<i32> {
        self.sql(
            "INSERT INTO collections (collectionid, name) VALUES (@collectionid, @name)"@,
        ).and_then(
            |db: DbView, request: SqlView|
                db.execute(
                    request.with("name"@, name).with(
                        "collectionid"@,
                        decimal(id as int),
                    ),
                ),
        ).and_then(|db: DbView, _result: ResultSetView| db.cache_put(id, name).done(id))
    }

    /// The id of the collection of that name, which is created where there is none.
    pub open spec fn get_or_create_collection_id(self, name: Seq<char>) -> Step<i32> {
        let found = self.get_collection_id(name);
        match found.out {
            Err(StopView::Failed(ErrorView::CollectionNotFound)) => found.db.create_collection(
                name,
            ),
            _ => found,
        }
    }

    /// When the collection of that name was last modified: from the session where it is known
    /// there, else from the database.
    pub open spec fn get_collection_timestamp(self, user: u32, name: Seq<char>) -> Step<int> {
        self.get_collection_id(name).and_then(
            |db: DbView, id: i32|
                if db.modified.contains_key((user, id)) {
                    db.done(db.modified[(user, id)])
                } else {
                    db.look(
                        "SELECT last_modified FROM user_collections WHERE userid=@userid AND collection=@collectionid"@,
                        natural(user as nat),
                        id,
                    ).and_then(
                        |db: DbView, row: Option<RowView>|
                            match row {
                                None => db.fail(ErrorView::CollectionNotFound),
                                Some(row) => db.read(stamp_cell(row, 0)),
                            },
                    )
                },
        )
    }

    /// Sets when a collection was last modified to the session's current time, whether or not
    /// the user has the collection.
    pub open spec fn touch_collection(self, user: u32, collection_id: i32) -> Step<int> {
        let userid = natural(user as nat);
        self.look(
            "SELECT 1 as count FROM user_collections WHERE userid = @userid AND collection = @collectionid;"@,
            userid,
            collection_id,
        ).and_then(
            |db: DbView, row: Option<RowView>|
                if row is Some {
                    db.write_modified(
                        "UPDATE user_collections SET last_modified=@last_modified WHERE userid=@userid AND collection=@collectionid"@,
                        "last_modified"@,
                        userid,
                        collection_id,
                    )
                } else {
                    db.write_modified(
                        "INSERT INTO user_collections (userid, collection, last_modified) VALUES (@userid, @collectionid, @modified)"@,
                        "modified"@,
                        userid,
                        collection_id,
                    )
                },
        )
    }

    /// Runs a statement that stores the session's current time as a parameter of that name.
    pub open spec fn write_modified(
        self,
        sql: Seq<char>,
        param: Seq<char>,
        userid: Seq<char>,
        collection_id: i32,
    ) -> Step<int> {
        self.collection_sql(sql, userid, collection_id).and_then(
            |db: DbView, request: SqlView|
                match text_of(db.timestamp) {
                    Err(error) => db.fail(error),
                    Ok(text) => db.execute(
                        request.with(param, text).typed(param, SpannerType::Timestamp),
                    ),
                },
        ).and_then(|db: DbView, _result: ResultSetView| db.done(db.timestamp))
    }
}

impl SpannerDb {
    /// A statement about one collection of one user.
    pub fn collection_sql(
        &mut self,
        sql: &str,
        userid: String,
        collection_id: i32,
    ) -> (request: Result<ExecuteSqlRequest, Stop>)
        ensures
            follows(
                old(self)@.collection_sql(sql@, userid@, collection_id),
                *final(self),
                request,
            ),
    {
        let mut request = self.sql(sql)?;
        request.set("userid", userid);
        request.set("collectionid", decimal_text(collection_id as i64));
        Ok(request)
    }

    /// The id of the collection of that name.
    pub fn get_collection_id(&mut self, name: &String) -> (id: Result<i32, Stop>)
        ensures
            follows(old(self)@.get_collection_id(name@), *final(self), id),
    {
        if let Some(id) = self.coll_cache.get_id(name) {
            return Ok(id);
        }
        let mut request = self.sql("SELECT collectionid FROM collections WHERE name = @name")?;
        request.set("name", name.clone());
        let result = self.execute(request)?;
        match result.one_or_none()? {
            None => Err(Stop::Failed(DbError::new(DbErrorKind::CollectionNotFound))),
            Some(row) => {
                let id = i32_at(row, 0)?;
                self.coll_cache.put(id, name.clone());
                Ok(id)
            },
        }
    }

    /// Creates a collection.
    pub fn create_collection(&mut self, name: &String) -> (id: Result<i32, Stop>)
        ensures
            follows(old(self)@.create_collection(name@), *final(self), id),
    {
        let request = self.sql("SELECT COALESCE(MAX(collectionid), 1) from collections")?;
        let result = self.execute(request)?;
        let max = i32_at(result.one()?, 0)?;
        if max == i32::MAX {
            return Err(Stop::Fault);
        }
        let id: i32 = if max + 1 < 100 {
            100
        } else {
            max + 1
        };
        let mut request = self.sql(
            "INSERT INTO collections (collectionid, name) VALUES (@collectionid, @name)",
        )?;
        request.set("name", name.clone());
        request.set("collectionid", decimal_text(id as i64));
        self.execute(request)?;
        self.coll_cache.put(id, name.clone());
        Ok(id)
    }

    /// The id of the collection of that name, which is created where there is none.
    pub fn get_or_create_collection_id(&mut self, name: &String) -> (id: Result<i32, Stop>)
        ensures
            follows(old(self)@.get_or_create_collection_id(name@), *final(self), id),
    {
        match self.get_collection_id(name) {
            Ok(id) => Ok(id),
            Err(Stop::Failed(error)) => match error.kind() {
                DbErrorKind::CollectionNotFound => self.create_collection(name),
                _ => Err(Stop::Failed(error)),
            },
            Err(stop) => Err(stop),
        }
    }

    /// When the collection was last modified.
    pub fn get_collection_timestamp_sync(
        &mut self,
        params: GetCollectionTimestamp,
    ) -> (stamp: Result<
        SyncTimestamp,
        Stop,
    >)
        ensures
            follows(
                old(self)@.get_collection_timestamp(params.user_id.id32(), params.collection@),
                *final(self),
                stamp,
            ),
    {
        let user_id = params.user_id.as_u32();
        let collection_id = self.get_collection_id(&params.collection)?;
        if let Some(modified) = self.inner.session.coll_modified_cache.get(
            &(user_id, collection_id),
        ) {
            return Ok(*modified);
        }
        let request = self.collection_sql(
            "SELECT last_modified FROM user_collections WHERE userid=@userid AND collection=@collectionid",
            natural_text(user_id as u64),
            collection_id,
        )?;
        let result = self.execute(request)?;
        match result.one_or_none()? {
            None => Err(Stop::Failed(DbError::new(DbErrorKind::CollectionNotFound))),
            Some(row) => stamp_at(row, 0),
        }
    }

    /// Sets when a collection was last modified to the session's current time.
    pub fn touch_collection(&mut self, user_id: u32, collection_id: i32) -> (touch: Result<
        SyncTimestamp,
        Stop,
    >)
        ensures
            follows(old(self)@.touch_collection(user_id, collection_id), *final(self), touch),
            touch is Ok ==> reads_back(old(self)@.timestamp),
    {
        let request = self.collection_sql(
            "SELECT 1 as count FROM user_collections WHERE userid = @userid AND collection = @collectionid;",
            natural_text(user_id as u64),
            collection_id,
        )?;
        let exists = self.execute(request)?.one_or_none()?.is_some();
        if exists {
            self.write_modified(
                "UPDATE user_collections SET last_modified=@last_modified WHERE userid=@userid AND collection=@collectionid",
                "last_modified",
                natural_text(user_id as u64),
                collection_id,
            )
        } else {
            self.write_modified(
                "INSERT INTO user_collections (userid, collection, last_modified) VALUES (@userid, @collectionid, @modified)",
                "modified",
                natural_text(user_id as u64),
                collection_id,
            )
        }
    }

    /// Runs a statement that stores the session's current time.
    fn write_modified(
        &mut self,
        sql: &str,
        param: &str,
        userid: String,
        collection_id: i32,
    ) -> (touch: Result<SyncTimestamp, Stop>)
        ensures
            follows(
                old(self)@.write_modified(sql@, param@, userid@, collection_id),
                *final(self),
                touch,
            ),
            touch is Ok ==> reads_back(old(self)@.timestamp),
    {
        let mut request = self.collection_sql(sql, userid, collection_id)?;
        let text = match to_rfc3339(self.timestamp().as_i64()) {
            Ok(text) => text,
            Err(error) => return Err(Stop::Failed(error)),
        };
        request.set(param, text);
        request.set_type(param, SpannerType::Timestamp);
        self.execute(request)?;
        Ok(self.timestamp())
    }
}

} // verus!
