//! What the operations come out with.

use vstd::prelude::*;

use crate::table::Table;
use crate::timestamp::SyncTimestamp;

verus! {

/// An object.
#[derive(Clone, Debug)]
pub struct GetBso {
    pub id: String,
    pub modified: SyncTimestamp,
    pub payload: String,
    pub sortindex: Option<i32>,
    /// When the object ceases to live, in milliseconds since the Unix epoch.
    pub expiry: i64,
}

/// A `GetBso` in terms of views.
pub struct BsoView {
    pub id: Seq<char>,
    pub modified: int,
    pub payload: Seq<char>,
    pub sortindex: Option<i32>,
    pub expiry: i64,
}

impl DeepView for GetBso {
    type V = BsoView;

    open spec fn deep_view(&self) -> BsoView {
        BsoView {
            id: self.id@,
            modified: self.modified@,
            payload: self.payload@,
            sortindex: self.sortindex,
            expiry: self.expiry,
        }
    }
}

/// A page of objects, and where the next page starts if there is one.
#[derive(Clone, Debug)]
pub struct GetBsos {
    pub items: Vec<GetBso>,
    pub offset: Option<i64>,
}

/// A `GetBsos` in terms of views.
pub struct PageView {
    pub items: Seq<BsoView>,
    pub offset: Option<i64>,
}

impl DeepView for GetBsos {
    type V = PageView;

    open spec fn deep_view(&self) -> PageView {
        PageView { items: self.items.deep_view(), offset: self.offset }
    }
}

/// The ids of a page of objects, and where the next page starts if there is one.
#[derive(Clone, Debug)]
pub struct GetBsoIds {
    pub items: Vec<String>,
    pub offset: Option<i64>,
}

/// A `GetBsoIds` in terms of views.
pub struct IdsView {
    pub items: Seq<Seq<char>>,
    pub offset: Option<i64>,
}

impl DeepView for GetBsoIds {
    type V = IdsView;

    open spec fn deep_view(&self) -> IdsView {
        IdsView { items: self.items.deep_view(), offset: self.offset }
    }
}

/// What became of several objects to write.
#[derive(Clone, Debug)]
pub struct PostBsos {
    pub modified: SyncTimestamp,
    /// The ids of those that were written.
    pub success: Vec<String>,
    /// Why the others were not, by id.
    pub failed: Table<String, String>,
}

/// A `PostBsos` in terms of views.
pub struct PostView {
    pub modified: int,
    pub success: Seq<Seq<char>>,
    pub failed: Map<Seq<char>, Seq<char>>,
}

impl DeepView for PostBsos {
    type V = PostView;

    open spec fn deep_view(&self) -> PostView {
        PostView {
            modified: self.modified@,
            success: self.success.deep_view(),
            failed: self.failed@,
        }
    }
}

} // verus!
