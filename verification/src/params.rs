//! What the operations are called with.

use vstd::prelude::*;

use crate::table::Table;
use crate::timestamp::SyncTimestamp;

verus! {

/// Whose storage it is.
#[derive(Clone, Copy, Debug, PartialEq, Eq)]
pub struct UserIdentifier {
    pub legacy_id: u64,
}

impl UserIdentifier {
    /// The low 32 bits of the id, by which most tables know the user.
    pub open spec fn id32(self) -> u32 {
        self.legacy_id as u32
    }

    /// The low 32 bits of the id.
    pub fn as_u32(self) -> (id: u32)
        ensures
            id == self.id32(),
    {
        #[verifier::truncate]
        (self.legacy_id as u32)
    }
}

/// A collection to lock.
#[derive(Clone, Debug)]
pub struct LockCollection {
    pub user_id: UserIdentifier,
    pub collection: String,
}

/// A collection to ask the time of.
#[derive(Clone, Debug)]
pub struct GetCollectionTimestamp {
    pub user_id: UserIdentifier,
    pub collection: String,
}

/// A collection to delete.
#[derive(Clone, Debug)]
pub struct DeleteCollection {
    pub user_id: UserIdentifier,
    pub collection: String,
}

/// An object to delete.
#[derive(Clone, Debug)]
pub struct DeleteBso {
    pub user_id: UserIdentifier,
    pub collection: String,
    pub id: String,
}

/// Objects to delete.
#[derive(Clone, Debug)]
pub struct DeleteBsos {
    pub user_id: UserIdentifier,
    pub collection: String,
    pub ids: Vec<String>,
}

/// How objects are sorted.
#[derive(Clone, Copy, Debug, PartialEq, Eq, Structural)]
pub enum Sorting {
    Unsorted,
    Newest,
    Oldest,
    Index,
}

/// Which objects are asked for.
#[derive(Clone, Debug)]
pub struct BsoQueryParams {
    /// Only those modified after this time.
    pub newer: Option<SyncTimestamp>,
    /// Only those modified before this time.
    pub older: Option<SyncTimestamp>,
    pub sort: Sorting,
    /// At most so many.
    pub limit: Option<u32>,
    /// Without so many of the first.
    pub offset: Option<u64>,
    /// Only those with one of these ids, unless there are none.
    pub ids: Vec<String>,
}

/// Objects to get.
#[derive(Clone, Debug)]
pub struct GetBsos {
    pub user_id: UserIdentifier,
    pub collection: String,
    pub params: BsoQueryParams,
}

/// An object to get.
#[derive(Clone, Debug)]
pub struct GetBso {
    pub user_id: UserIdentifier,
    pub collection: String,
    pub id: String,
}

/// An object to ask the time of.
#[derive(Clone, Debug)]
pub struct GetBsoTimestamp {
    pub user_id: UserIdentifier,
    pub collection: String,
    pub id: String,
}

/// An object to write. What is not given stays as it is, or takes its default.
#[derive(Clone, Debug)]
pub struct PutBso {
    pub user_id: UserIdentifier,
    pub collection: String,
    pub id: String,
    pub sortindex: Option<i32>,
    pub payload: Option<String>,
    /// How long the object lives, in seconds.
    pub ttl: Option<u32>,
}

/// One of several objects to write.
#[derive(Clone, Debug)]
pub struct PostCollectionBso {
    pub id: String,
    pub sortindex: Option<i32>,
    pub payload: Option<String>,
    pub ttl: Option<u32>,
}

/// Objects to write, and those that failed already.
#[derive(Clone, Debug)]
pub struct PostBsos {
    pub user_id: UserIdentifier,
    pub collection: String,
    pub bsos: Vec<PostCollectionBso>,
    pub failed: Table<String, String>,
}

} // verus!
