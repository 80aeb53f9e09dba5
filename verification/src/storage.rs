//! A user's storage as a whole, and deleting.

use vstd::prelude::*;

use crate::conn::{ResultSetView, RowView, SqlView, SyncResultSet};
use crate::db::{follows, DbView, SpannerDb, Step};
use crate::decimal::{natural, natural_text};
use crate::error::{DbError, DbErrorKind, ErrorView, Stop, StopView};
use crate::params::{DeleteBso, DeleteBsos, DeleteCollection, UserIdentifier};
use crate::rows::{affected_rows, cell, i64_at, i64_cell, stamp_at, stamp_cell, text_at};
use crate::timestamp::SyncTimestamp;

verus! {

/// The time that a query for the greatest time gives where there is none.
pub open spec fn no_time() -> Seq<char> {
    "0001-01-01T00:00:00Z"@
}

impl DbView {
    /// Runs a statement about a user.
    pub open spec fn user_sql(self, sql: Seq<char>, user: u32) -> Step<ResultSetView> {
        self.sql(sql).and_then(
            |db: DbView, request: SqlView|
                db.execute(request.with("userid"@, natural(user as nat))),
        )
    }

    /// The row of the greatest time of a user's collections.
    pub open spec fn storage_time_row(self, user: u32) -> Step<Option<RowView>> {
        self.sql(
            "SELECT COALESCE(MAX(last_modified), TIMESTAMP '0001-01-01T00:00:00Z') FROM user_collections WHERE userid=@userid"@,
        ).and_then(
            |db: DbView, request: SqlView|
                db.find(request.with("userid"@, natural(user as nat))),
        )
    }

    /// When a user's storage was last modified; 0 where the user has no collection.
    pub open spec fn get_storage_timestamp(self, user: u32) -> Step<int> {
        self.storage_time_row(user).and_then(
            |db: DbView, row: Option<RowView>|
                match row {
                    None => db.done(0int),
                    Some(row) => if cell(row, 0) == Ok::<Seq<char>, StopView>(no_time()) {
                        db.done(0int)
                    } else {
                        db.read(stamp_cell(row, 0))
                    },
                },
        )
    }

    /// The row of how much payload the live objects of a user hold.
    pub open spec fn storage_usage_row(self, user: u32) -> Step<Option<RowView>> {
        self.sql(
            "SELECT SUM(LENGTH(payload)) FROM bso WHERE userid=@userid AND ttl > CURRENT_TIMESTAMP() GROUP BY userid"@,
        ).and_then(
            |db: DbView, request: SqlView|
                db.find(request.with("userid"@, natural(user as nat))),
        )
    }

    /// How much payload the live objects of a user hold.
    pub open spec fn get_storage_usage(self, user: u32) -> Step<u64> {
        self.storage_usage_row(user).and_then(
            |db: DbView, row: Option<RowView>|
                match row {
                    None => db.done(0u64),
                    Some(row) => db.read(i64_cell(row, 0)).and_then(
                        |db: DbView, usage: i64| db.done(usage as u64),
                    ),
                },
        )
    }

    /// Deletes the collections of a user.
    pub open spec fn delete_storage(self, user: u32) -> Step<()> {
        self.user_sql("DELETE FROM user_collections WHERE userid=@userid"@, user).and_then(
            |db: DbView, _result: ResultSetView| db.done(()),
        )
    }

    /// Deletes a collection with its objects. What comes out is when the storage was last
    /// modified.
    pub open spec fn delete_collection(self, user: u32, name: Seq<char>) -> Step<int> {
        self.get_collection_id(name).and_then(|db: DbView, id: i32| db.delete_objects(user, id))
    }

    /// Deletes the objects of a collection, then the collection.
    pub open spec fn delete_objects(self, user: u32, collection_id: i32) -> Step<int> {
        self.run(
            "DELETE FROM bso WHERE userid=@userid AND collection=@collectionid"@,
            natural(user as nat),
            collection_id,
        ).and_then(|db: DbView, _result: ResultSetView| db.delete_entry(user, collection_id))
    }

    /// Deletes a collection without its objects.
    pub open spec fn delete_entry(self, user: u32, collection_id: i32) -> Step<int> {
        self.run(
            "DELETE FROM user_collections WHERE userid=@userid AND collection=@collectionid"@,
            natural(user as nat),
            collection_id,
        ).and_then(|db: DbView, _result: ResultSetView| db.get_storage_timestamp(user))
    }

    /// Deletes an object. What comes out is how many there were.
    pub open spec fn delete_count(self, user: u32, collection_id: i32, bso: Seq<char>) -> Step<
        i64,
    > {
        self.collection_sql(
            "DELETE FROM bso WHERE userid=@userid AND collection=@collectionid AND id=@bsoid"@,
            natural(user as nat),
            collection_id,
        ).and_then(
            |db: DbView, request: SqlView| db.execute(request.with("bsoid"@, bso)),
        ).and_then(
            |db: DbView, result: ResultSetView| db.lift(affected_rows(result.stats)),
        )
    }

    /// Deletes an object, and gives `touch`; where none was deleted, there was none.
    pub open spec fn delete_row(
        self,
        user: u32,
        collection_id: i32,
        bso: Seq<char>,
        touch: int,
    ) -> Step<int> {
        self.delete_count(user, collection_id, bso).and_then(
            |db: DbView, count: i64|
                if count == 0 {
                    db.fail(ErrorView::BsoNotFound)
                } else {
                    db.done(touch)
                },
        )
    }

    /// Touches a collection and deletes an object in it.
    pub open spec fn delete_bso(self, user: u32, name: Seq<char>, bso: Seq<char>) -> Step<int> {
        self.get_collection_id(name).and_then(
            |db: DbView, id: i32| db.touch_and_delete(user, id, bso),
        )
    }

    /// Touches the collection of that id and deletes an object in it.
    pub open spec fn touch_and_delete(self, user: u32, collection_id: i32, bso: Seq<char>) -> Step<
        int,
    > {
        self.touch_collection(user, collection_id).and_then(
            |db: DbView, touch: int| db.delete_row(user, collection_id, bso, touch),
        )
    }

    /// Looks for an object.
    pub open spec fn look_for(self, user: u32, collection_id: i32, bso: Seq<char>) -> Step<
        ResultSetView,
    > {
        self.collection_sql(
            "SELECT 1 FROM bso WHERE userid=@userid AND collection=@collectionid AND id=@bsoid"@,
            natural(user as nat),
            collection_id,
        ).and_then(|db: DbView, request: SqlView| db.execute(request.with("bsoid"@, bso)))
    }

    /// Deletes objects one after the other, up to the first that fails.
    pub open spec fn delete_each(
        self,
        user: u32,
        name: Seq<char>,
        collection_id: i32,
        bsos: Seq<Seq<char>>,
    ) -> Step<()>
        decreases bsos.len(),
    {
        if bsos.len() == 0 {
            self.done(())
        } else {
            let looked = self.look_for(user, collection_id, bsos[0]);
            match looked.out {
                Err(stop) => Step { db: looked.db, out: Err(stop) },
                Ok(_) => {
                    let first = looked.db.delete_bso(user, name, bsos[0]);
                    match first.out {
                        Err(stop) => Step { db: first.db, out: Err(stop) },
                        Ok(_) => first.db.delete_each(user, name, collection_id, bsos.drop_first()),
                    }
                },
            }
        }
    }

    /// Deletes objects and touches their collection; no objects at all is an error.
    pub open spec fn delete_bsos(self, user: u32, name: Seq<char>, bsos: Seq<Seq<char>>) -> Step<
        int,
    > {
        self.get_collection_id(name).and_then(
            |db: DbView, id: i32| db.delete_all(user, name, id, bsos),
        )
    }

    /// Deletes objects and touches the collection of that id.
    pub open spec fn delete_all(
        self,
        user: u32,
        name: Seq<char>,
        collection_id: i32,
        bsos: Seq<Seq<char>>,
    ) -> Step<int> {
        self.delete_each(user, name, collection_id, bsos).and_then(
            |db: DbView, _u: ()|
                if bsos.len() > 0 {
                    db.touch_collection(user, collection_id)
                } else {
                    db.fail(ErrorView::BsoNotFound)
                },
        )
    }
}

impl SpannerDb {
    /// When a user's storage was last modified.
    pub fn get_storage_timestamp_sync(&mut self, user_id: UserIdentifier) -> (stamp: Result<
        SyncTimestamp,
        Stop,
    >)
        ensures
            follows(old(self)@.get_storage_timestamp(user_id.id32()), *final(self), stamp),
    {
        let mut request = self.sql(
            "SELECT COALESCE(MAX(last_modified), TIMESTAMP '0001-01-01T00:00:00Z') FROM user_collections WHERE userid=@userid",
        )?;
        request.set("userid", natural_text(user_id.as_u32() as u64));
        let result = self.execute(request)?;
        match result.one_or_none()? {
            None => Ok(SyncTimestamp::zero()),
            Some(row) => {
                let ts0 = "0001-01-01T00:00:00Z".to_owned();
                if *text_at(row, 0)? == ts0 {
                    Ok(SyncTimestamp::zero())
                } else {
                    stamp_at(row, 0)
                }
            },
        }
    }

    /// How much payload the live objects of a user hold.
    pub fn get_storage_usage_sync(&mut self, user_id: UserIdentifier) -> (usage: Result<u64, Stop>)
        ensures
            follows(old(self)@.get_storage_usage(user_id.id32()), *final(self), usage),
    {
        let mut request = self.sql(
            "SELECT SUM(LENGTH(payload)) FROM bso WHERE userid=@userid AND ttl > CURRENT_TIMESTAMP() GROUP BY userid",
        )?;
        request.set("userid", natural_text(user_id.as_u32() as u64));
        let result = self.execute(request)?;
        match result.one_or_none()? {
            None => Ok(0),
            Some(row) => {
                let usage = i64_at(row, 0)?;
                Ok(
                    #[verifier::truncate]
                    (usage as u64),
                )
            },
        }
    }

    /// Deletes the collections of a user.
    pub fn delete_storage_sync(&mut self, user_id: UserIdentifier) -> (done: Result<(), Stop>)
        ensures
            follows(old(self)@.delete_storage(user_id.id32()), *final(self), done),
    {
        let mut request = self.sql("DELETE FROM user_collections WHERE userid=@userid")?;
        request.set("userid", natural_text(user_id.as_u32() as u64));
        self.execute(request)?;
        Ok(())
    }

    /// Deletes a collection with its objects.
    pub fn delete_collection_sync(&mut self, params: DeleteCollection) -> (stamp: Result<
        SyncTimestamp,
        Stop,
    >)
        ensures
            follows(
                old(self)@.delete_collection(params.user_id.id32(), params.collection@),
                *final(self),
                stamp,
            ),
    {
        let user_id = params.user_id.as_u32();
        let collection_id = self.get_collection_id(&params.collection)?;
        let request = self.collection_sql(
            "DELETE FROM bso WHERE userid=@userid AND collection=@collectionid",
            natural_text(user_id as u64),
            collection_id,
        )?;
        self.execute(request)?;
        let request = self.collection_sql(
            "DELETE FROM user_collections WHERE userid=@userid AND collection=@collectionid",
            natural_text(user_id as u64),
            collection_id,
        )?;
        self.execute(request)?;
        self.get_storage_timestamp_sync(params.user_id)
    }

    /// Deletes an object.
    pub fn delete_bso_sync(&mut self, params: DeleteBso) -> (touch: Result<SyncTimestamp, Stop>)
        ensures
            follows(
                old(self)@.delete_bso(params.user_id.id32(), params.collection@, params.id@),
                *final(self),
                touch,
            ),
    {
        let user_id = params.user_id.as_u32();
        let collection_id = self.get_collection_id(&params.collection)?;
        let touch = self.touch_collection(user_id, collection_id)?;
        let mut request = self.collection_sql(
            "DELETE FROM bso WHERE userid=@userid AND collection=@collectionid AND id=@bsoid",
            natural_text(user_id as u64),
            collection_id,
        )?;
        request.set("bsoid", params.id.clone());
        let result = self.execute(request)?;
        match result.affected_rows() {
            Err(error) => Err(Stop::Failed(error)),
            Ok(count) => if count == 0 {
                Err(Stop::Failed(DbError::new(DbErrorKind::BsoNotFound)))
            } else {
                Ok(touch)
            },
        }
    }

    /// Deletes objects.
    pub fn delete_bsos_sync(&mut self, params: DeleteBsos) -> (touch: Result<SyncTimestamp, Stop>)
        ensures
            follows(
                old(self)@.delete_bsos(
                    params.user_id.id32(),
                    params.collection@,
                    params.ids.deep_view(),
                ),
                *final(self),
                touch,
            ),
    {
        let user_id = params.user_id.as_u32();
        let collection_id = self.get_collection_id(&params.collection)?;
        self.delete_each(&params, collection_id)?;
        if params.ids.len() > 0 {
            self.touch_collection(user_id, collection_id)
        } else {
            Err(Stop::Failed(DbError::new(DbErrorKind::BsoNotFound)))
        }
    }

    /// Looks for an object.
    fn look_for(&mut self, user_id: u32, collection_id: i32, id: &String) -> (result: Result<
        SyncResultSet,
        Stop,
    >)
        ensures
            follows(old(self)@.look_for(user_id, collection_id, id@), *final(self), result),
    {
        let mut request = self.collection_sql(
            "SELECT 1 FROM bso WHERE userid=@userid AND collection=@collectionid AND id=@bsoid",
            natural_text(user_id as u64),
            collection_id,
        )?;
        request.set("bsoid", id.clone());
        self.execute(request)
    }

    /// Deletes objects one after the other.
    #[verifier::rlimit(60)]
    fn delete_each(&mut self, params: &DeleteBsos, collection_id: i32) -> (done: Result<(), Stop>)
        ensures
            follows(
                old(self)@.delete_each(
                    params.user_id.id32(),
                    params.collection@,
                    collection_id,
                    params.ids.deep_view(),
                ),
                *final(self),
                done,
            ),
    {
        let user_id = params.user_id.as_u32();
        let ghost ids = params.ids.deep_view();
        let mut i: usize = 0;
        assert(ids.skip(0) =~= ids);
        while i < params.ids.len()
            invariant
                i <= params.ids.len(),
                ids == params.ids.deep_view(),
                user_id == params.user_id.id32(),
                self@.delete_each(user_id, params.collection@, collection_id, ids.skip(i as int))
                    == old(self)@.delete_each(user_id, params.collection@, collection_id, ids),
            decreases params.ids.len() - i,
        {
            assert(ids.skip(i as int)[0] == params.ids@[i as int]@);
            assert(ids.skip(i as int).drop_first() =~= ids.skip(i + 1));
            self.look_for(user_id, collection_id, &params.ids[i])?;
            self.delete_bso_sync(
                DeleteBso {
                    user_id: params.user_id,
                    collection: params.collection.clone(),
                    id: params.ids[i].clone(),
                },
            )?;
            i += 1;
        }
        Ok(())
    }
}

} // verus!
