//! Reading objects.

use vstd::prelude::*;
use vstd::string::*;

use crate::conn::{ExecuteSqlRequest, ResultSetView, RowView, SpannerType, SqlView};
use crate::db::{follows, DbView, SpannerDb, Step};
use crate::decimal::{decimal, decimal_text, natural, natural_text};
use crate::error::{joined, outcome, Stop, StopView};
use crate::params::{self, BsoQueryParams, GetBsoTimestamp, Sorting};
use crate::results::{BsoView, GetBso, GetBsoIds, GetBsos, IdsView, PageView};
use crate::rows::{cell, i32_at, i32_cell, must, stamp_at, stamp_cell, text_at};
use crate::timestamp::{
    from_rfc3339, instant_of, text_of, to_rfc3339, SyncTimestamp, FIRST_INSTANT, LAST_INSTANT,
};

verus! {

/// `BsoQueryParams` in terms of views.
pub struct QueryView {
    pub newer: Option<int>,
    pub older: Option<int>,
    pub sort: Sorting,
    pub limit: Option<u32>,
    pub offset: Option<u64>,
    pub ids: Seq<Seq<char>>,
}

impl View for BsoQueryParams {
    type V = QueryView;

    open spec fn view(&self) -> QueryView {
        QueryView {
            newer: self.newer.deep_view(),
            older: self.older.deep_view(),
            sort: self.sort,
            limit: self.limit,
            offset: self.offset,
            ids: self.ids.deep_view(),
        }
    }
}

/// The placeholders of `n` ids, separated by commas.
pub open spec fn placeholders(n: nat) -> Seq<char>
    decreases n,
{
    if n == 0 {
        Seq::empty()
    } else if n == 1 {
        "@arg"@ + natural(0)
    } else {
        placeholders((n - 1) as nat) + ", "@ + "@arg"@ + natural((n - 1) as nat)
    }
}

/// A request with each of the ids as a parameter.
pub open spec fn with_ids(request: SqlView, ids: Seq<Seq<char>>) -> SqlView
    decreases ids.len(),
{
    if ids.len() == 0 {
        request
    } else {
        with_ids(request, ids.drop_last()).with(
            "arg"@ + natural((ids.len() - 1) as nat),
            ids.last(),
        )
    }
}

/// A request with a time as a parameter, if one is given.
pub open spec fn time_param(request: SqlView, name: Seq<char>, text: Option<Seq<char>>) -> SqlView {
    match text {
        Some(text) => request.with(name, text).typed(name, SpannerType::Timestamp),
        None => request,
    }
}

/// The text of a time stamp, if one is given.
pub open spec fn written(stamp: Option<int>) -> Option<Seq<char>> {
    match stamp {
        Some(millis) => match text_of(millis) {
            Ok(text) => Some(text),
            Err(_) => None,
        },
        None => None,
    }
}

impl QueryView {
    /// The times are such as the calendar reaches.
    pub open spec fn in_range(self) -> bool {
        &&& self.newer matches Some(newer) ==> FIRST_INSTANT <= newer <= LAST_INSTANT
        &&& self.older matches Some(older) ==> FIRST_INSTANT <= older <= LAST_INSTANT
    }

    /// How many of the first objects are left out.
    pub open spec fn start(self) -> i64 {
        match self.offset {
            Some(offset) => offset as i64,
            None => 0,
        }
    }

    /// The condition on the time before which objects were modified.
    pub open spec fn older_clause(self) -> Seq<char> {
        if self.older is Some {
            " AND modified < @older"@
        } else {
            Seq::empty()
        }
    }

    /// The condition on the time after which objects were modified.
    pub open spec fn newer_clause(self) -> Seq<char> {
        if self.newer is Some {
            " AND modified > @newer"@
        } else {
            Seq::empty()
        }
    }

    /// The condition on the ids.
    pub open spec fn ids_clause(self) -> Seq<char> {
        if self.ids.len() > 0 {
            " AND id IN ("@ + placeholders(self.ids.len()) + ")"@
        } else {
            Seq::empty()
        }
    }

    /// In which order objects come.
    pub open spec fn order_clause(self) -> Seq<char> {
        match self.sort {
            Sorting::Index => " ORDER BY sortindex DESC"@,
            Sorting::Newest => " ORDER BY modified DESC"@,
            Sorting::Oldest => " ORDER BY modified ASC"@,
            Sorting::Unsorted => Seq::empty(),
        }
    }

    /// How many rows come at most: one more than asked for, to tell whether there are more.
    pub open spec fn limit_clause(self) -> Seq<char> {
        " LIMIT "@ + decimal(
            match self.limit {
                Some(limit) => limit + 1,
                None => -1,
            },
        )
    }

    /// How many of the first rows are left out.
    pub open spec fn offset_clause(self) -> Seq<char> {
        if self.start() != 0 {
            " OFFSET "@ + decimal(self.start() as int)
        } else {
            Seq::empty()
        }
    }

    /// The statement that asks for the objects.
    pub open spec fn sql(self) -> Seq<char> {
        "SELECT id, modified, payload, COALESCE(sortindex, 0), ttl FROM bso WHERE userid = @userid AND collection = @collectionid AND ttl > @timestamp"@
            + self.older_clause() + self.newer_clause() + self.ids_clause() + self.order_clause()
            + self.limit_clause() + self.offset_clause()
    }

    /// The statement with its parameters: `now`, `older` and `newer` are the texts of times.
    pub open spec fn bind(
        self,
        request: SqlView,
        user: i32,
        collection_id: i32,
        now: Seq<char>,
        older: Option<Seq<char>>,
        newer: Option<Seq<char>>,
    ) -> SqlView {
        let request = request.with("userid"@, decimal(user as int)).with(
            "collectionid"@,
            decimal(collection_id as int),
        ).with("timestamp"@, now).typed("timestamp"@, SpannerType::Timestamp);
        with_ids(
            time_param(time_param(request, "older"@, older), "newer"@, newer),
            self.ids,
        )
    }

    /// The statement with its parameters, those that are times being written out.
    pub open spec fn bind_all(
        self,
        request: SqlView,
        user: i32,
        collection_id: i32,
        now: Seq<char>,
    ) -> SqlView {
        self.bind(request, user, collection_id, now, written(self.older), written(self.newer))
    }

    /// The page that the rows make: without the row that shows that there are more, and with
    /// where the next page starts if there are. There is no going on where no number says it.
    pub open spec fn page(self, rows: Seq<BsoView>) -> Result<PageView, StopView> {
        match self.limit {
            Some(limit) if rows.len() > limit => if limit + self.start() > i64::MAX {
                Err(StopView::Fault)
            } else {
                Ok(
                    PageView {
                        items: rows.drop_last(),
                        offset: Some((limit + self.start()) as i64),
                    },
                )
            },
            _ => Ok(PageView { items: rows, offset: None }),
        }
    }
}

/// The object in a row, once its times are read; there is no going on with a row that holds
/// none.
pub open spec fn bso_in(row: RowView, modified: int, expiry: i64) -> Result<BsoView, StopView> {
    match (cell(row, 0), cell(row, 2), must(i32_cell(row, 3))) {
        (Ok(id), Ok(payload), Ok(sortindex)) => Ok(
            BsoView { id, modified, payload, sortindex: Some(sortindex), expiry },
        ),
        _ => Err(StopView::Fault),
    }
}

/// An object in a row of a list; there is no going on with a row that holds none.
pub open spec fn listed_bso(row: RowView) -> Result<BsoView, StopView> {
    match (stamp_cell(row, 1), stamp_cell(row, 4)) {
        (Ok(modified), Ok(expiry)) => bso_in(row, modified, expiry as i64),
        _ => Err(StopView::Fault),
    }
}

/// The objects in rows, all of which must hold one.
pub open spec fn listed_bsos(rows: Seq<RowView>) -> Result<Seq<BsoView>, StopView> {
    if forall|i: int| 0 <= i < rows.len() ==> (#[trigger] listed_bso(rows[i])) is Ok {
        Ok(Seq::new(rows.len(), |i: int| listed_bso(rows[i])->Ok_0))
    } else {
        Err(StopView::Fault)
    }
}

/// An object in a row of its own: times that cannot be read are errors.
pub open spec fn single_bso(row: RowView) -> Result<BsoView, StopView> {
    match stamp_cell(row, 1) {
        Err(stop) => Err(stop),
        Ok(modified) => match cell(row, 4) {
            Err(stop) => Err(stop),
            Ok(text) => match instant_of(text) {
                Err(error) => Err(StopView::Failed(error)),
                Ok(expiry) => bso_in(row, modified, expiry),
            },
        },
    }
}

impl DbView {
    /// Lists the live objects of a collection, as many as the query's statement returns. There
    /// is no going on with a query whose times cannot be written.
    pub open spec fn list(self, user: i32, name: Seq<char>, query: QueryView) -> Step<
        Seq<BsoView>,
    > {
        self.get_collection_id(name).and_then(
            |db: DbView, id: i32|
                match text_of(db.timestamp) {
                    Err(error) => db.fail(error),
                    Ok(now) => if query.in_range() {
                        db.sql(query.sql()).and_then(
                            |db: DbView, request: SqlView|
                                db.execute(query.bind_all(request, user, id, now)),
                        )
                    } else {
                        db.fault()
                    },
                },
        ).and_then(|db: DbView, result: ResultSetView| db.read(listed_bsos(result.rows)))
    }

    /// A page of the live objects of a collection.
    pub open spec fn get_bsos(
        self,
        user: i32,
        name: Seq<char>,
        query: QueryView,
    ) -> Step<PageView> {
        self.list(user, name, query).and_then(
            |db: DbView, rows: Seq<BsoView>| db.read(query.page(rows)),
        )
    }

    /// The ids of a page of the live objects of a collection.
    pub open spec fn get_bso_ids(self, user: i32, name: Seq<char>, query: QueryView) -> Step<
        IdsView,
    > {
        self.get_bsos(user, name, query).and_then(
            |db: DbView, page: PageView|
                db.done(
                    IdsView {
                        items: Seq::new(page.items.len(), |i: int| page.items[i].id),
                        offset: page.offset,
                    },
                ),
        )
    }

    /// Runs a statement about one object that takes the session's current time as a parameter
    /// of that name.
    pub open spec fn find_bso(
        self,
        sql: Seq<char>,
        userid: Seq<char>,
        collection_id: i32,
        bso: Seq<char>,
        param: Seq<char>,
    ) -> Step<Option<RowView>> {
        self.collection_sql(sql, userid, collection_id).and_then(
            |db: DbView, request: SqlView|
                match text_of(db.timestamp) {
                    Err(error) => db.fail(error),
                    Ok(now) => db.find(
                        request.with("bsoid"@, bso).with(param, now).typed(
                            param,
                            SpannerType::Timestamp,
                        ),
                    ),
                },
        )
    }

    /// The row of the live object of that id, if there is one.
    pub open spec fn find_object(self, user: u64, name: Seq<char>, bso: Seq<char>) -> Step<
        Option<RowView>,
    > {
        self.get_collection_id(name).and_then(
            |db: DbView, id: i32|
                db.find_bso(
                    "SELECT id, modified, payload, coalesce(sortindex, 0), ttl FROM bso WHERE userid=@userid AND collection=@collectionid AND id=@bsoid AND ttl > @timestamp"@,
                    natural(user as nat),
                    id,
                    bso,
                    "timestamp"@,
                ),
        )
    }

    /// The live object of that id, if there is one.
    pub open spec fn get_bso(self, user: u64, name: Seq<char>, bso: Seq<char>) -> Step<
        Option<BsoView>,
    > {
        self.find_object(user, name, bso).and_then(
            |db: DbView, row: Option<RowView>|
                match row {
                    None => db.done(None),
                    Some(row) => db.read(single_bso(row)).and_then(
                        |db: DbView, bso: BsoView| db.done(Some(bso)),
                    ),
                },
        )
    }

    /// The row of when the live object of that id was modified, if there is one.
    pub open spec fn find_time(self, user: u32, name: Seq<char>, bso: Seq<char>) -> Step<
        Option<RowView>,
    > {
        self.get_collection_id(name).and_then(
            |db: DbView, id: i32|
                db.find_bso(
                    "SELECT modified FROM bso WHERE collection=@collectionid AND userid=@userid AND id=@bsoid AND ttl>@ttl"@,
                    natural(user as nat),
                    id,
                    bso,
                    "ttl"@,
                ),
        )
    }

    /// When the live object of that id was modified; 0 where there is none.
    pub open spec fn get_bso_timestamp(self, user: u32, name: Seq<char>, bso: Seq<char>) -> Step<
        int,
    > {
        self.find_time(user, name, bso).and_then(
            |db: DbView, row: Option<RowView>|
                match row {
                    None => db.done(0int),
                    Some(row) => db.read(stamp_cell(row, 0)),
                },
        )
    }
}

impl BsoQueryParams {
    /// How many of the first objects are left out.
    fn start(&self) -> (start: i64)
        ensures
            start == self@.start(),
    {
        match self.offset {
            Some(offset) =>
            #[verifier::truncate]
            (offset as i64),
            None => 0,
        }
    }

    /// The statement that asks for the objects.
    pub fn sql(&self) -> (sql: String)
        ensures
            sql@ == self@.sql(),
    {
        let mut query = "SELECT id, modified, payload, COALESCE(sortindex, 0), ttl FROM bso WHERE userid = @userid AND collection = @collectionid AND ttl > @timestamp".to_owned();
        let ghost sql = query@;
        if self.older.is_some() {
            query.append(" AND modified < @older");
        }
        proof {
            sql = sql + self@.older_clause();
            assert(query@ =~= sql);
        }
        if self.newer.is_some() {
            query.append(" AND modified > @newer");
        }
        proof {
            sql = sql + self@.newer_clause();
            assert(query@ =~= sql);
        }
        if self.ids.len() > 0 {
            query.append(" AND id IN (");
            let list = placeholders_text(self.ids.len());
            query.append(list.as_str());
            query.append(")");
        }
        proof {
            sql = sql + self@.ids_clause();
            assert(query@ =~= sql);
        }
        match self.sort {
            Sorting::Index => query.append(" ORDER BY sortindex DESC"),
            Sorting::Newest => query.append(" ORDER BY modified DESC"),
            Sorting::Oldest => query.append(" ORDER BY modified ASC"),
            Sorting::Unsorted => {},
        }
        proof {
            sql = sql + self@.order_clause();
            assert(query@ =~= sql);
        }
        // fetch an extra row to detect if there are more rows that
        // match the query conditions
        let rows: i64 = match self.limit {
            Some(limit) => limit as i64 + 1,
            None => -1,
        };
        query.append(" LIMIT ");
        query.append(decimal_text(rows).as_str());
        proof {
            sql = sql + self@.limit_clause();
            assert(query@ =~= sql);
        }
        let start = self.start();
        if start != 0 {
            query.append(" OFFSET ");
            query.append(decimal_text(start).as_str());
        }
        proof {
            sql = sql + self@.offset_clause();
            assert(query@ =~= sql);
        }
        query
    }

    /// Gives the statement's parameters their values: `now`, `older` and `newer` are the texts
    /// of times.
    pub fn bind(
        &self,
        request: &mut ExecuteSqlRequest,
        user_id: i32,
        collection_id: i32,
        now: String,
        older: Option<String>,
        newer: Option<String>,
    )
        ensures
            final(request).deep_view() == self@.bind(
                old(request).deep_view(),
                user_id,
                collection_id,
                now@,
                older.deep_view(),
                newer.deep_view(),
            ),
    {
        request.set("userid", decimal_text(user_id as i64));
        request.set("collectionid", decimal_text(collection_id as i64));
        request.set("timestamp", now);
        request.set_type("timestamp", SpannerType::Timestamp);
        set_time(request, "older", older);
        set_time(request, "newer", newer);
        set_ids(request, &self.ids);
    }

    /// The page that the rows make.
    pub fn page(&self, rows: Vec<GetBso>) -> (page: Result<GetBsos, Stop>)
        ensures
            outcome(page) == self@.page(rows.deep_view()),
    {
        let mut items = rows;
        match self.limit {
            Some(limit) if items.len() > limit as usize => {
                items.pop();
                match (limit as i64).checked_add(self.start()) {
                    Some(next) => {
                        let page = GetBsos { items, offset: Some(next) };
                        assert(page.deep_view().items =~= rows.deep_view().drop_last());
                        Ok(page)
                    },
                    None => Err(Stop::Fault),
                }
            },
            _ => Ok(GetBsos { items, offset: None }),
        }
    }
}

/// The placeholders of `n` ids.
fn placeholders_text(n: usize) -> (text: String)
    ensures
        text@ == placeholders(n as nat),
{
    let mut text = String::new();
    let mut i: usize = 0;
    while i < n
        invariant
            i <= n,
            text@ == placeholders(i as nat),
        decreases n - i,
    {
        if i > 0 {
            text.append(", ");
        }
        text.append("@arg");
        text.append(natural_text(i as u64).as_str());
        i += 1;
        assert(text@ =~= placeholders(i as nat));
    }
    text
}

/// Gives a time as a parameter, if there is one.
pub(crate) fn set_time(request: &mut ExecuteSqlRequest, name: &str, text: Option<String>)
    ensures
        final(request).deep_view() == time_param(
            old(request).deep_view(),
            name@,
            text.deep_view(),
        ),
{
    if let Some(text) = text {
        request.set(name, text);
        request.set_type(name, SpannerType::Timestamp);
    }
}

/// The text of a time stamp, if there is one; there is no going on with one that has none.
fn written_text(stamp: Option<SyncTimestamp>) -> (text: Result<Option<String>, Stop>)
    ensures
        match text {
            Ok(t) => t.deep_view() == written(stamp.deep_view()) && (stamp.deep_view() matches Some(
                millis,
            ) ==> FIRST_INSTANT <= millis <= LAST_INSTANT),
            Err(stop) => stop@ == StopView::Fault && (stamp.deep_view() matches Some(millis) && !(
            FIRST_INSTANT <= millis <= LAST_INSTANT)),
        },
{
    match stamp {
        Some(stamp) => match stamp.as_rfc3339() {
            Ok(text) => Ok(Some(text)),
            Err(_) => Err(Stop::Fault),
        },
        None => Ok(None),
    }
}

/// Gives each of the ids as a parameter.
fn set_ids(request: &mut ExecuteSqlRequest, ids: &Vec<String>)
    ensures
        final(request).deep_view() == with_ids(old(request).deep_view(), ids.deep_view()),
{
    let ghost all = ids.deep_view();
    let mut i: usize = 0;
    assert(all.take(0) =~= Seq::empty());
    while i < ids.len()
        invariant
            i <= ids.len(),
            all == ids.deep_view(),
            request.deep_view() == with_ids(old(request).deep_view(), all.take(i as int)),
        decreases ids.len() - i,
    {
        let name = joined("arg", natural_text(i as u64).as_str());
        request.set(name.as_str(), ids[i].clone());
        i += 1;
        assert(all.take(i as int).drop_last() =~= all.take(i - 1));
    }
    assert(all.take(i as int) =~= all);
}

/// The object in a row, once its times are read.
pub fn bso_at(row: &Vec<String>, modified: SyncTimestamp, expiry: i64) -> (bso: Result<
    GetBso,
    Stop,
>)
    ensures
        outcome(bso) == bso_in(row.deep_view(), modified@, expiry),
{
    let id = text_at(row, 0)?.clone();
    let payload = text_at(row, 2)?.clone();
    match i32_at(row, 3) {
        Ok(sortindex) => Ok(
            GetBso { id, modified, payload, sortindex: Some(sortindex), expiry },
        ),
        Err(_) => Err(Stop::Fault),
    }
}

/// The object in a row of a list.
fn listed_bso_at(row: &Vec<String>) -> (bso: Result<GetBso, Stop>)
    ensures
        outcome(bso) == listed_bso(row.deep_view()),
{
    match (stamp_at(row, 1), stamp_at(row, 4)) {
        (Ok(modified), Ok(expiry)) => bso_at(row, modified, expiry.as_i64()),
        _ => Err(Stop::Fault),
    }
}

/// The object in a row of its own.
fn single_bso_at(row: &Vec<String>) -> (bso: Result<GetBso, Stop>)
    ensures
        outcome(bso) == single_bso(row.deep_view()),
{
    let modified = stamp_at(row, 1)?;
    match from_rfc3339(text_at(row, 4)?.as_str()) {
        Ok(expiry) => bso_at(row, modified, expiry),
        Err(error) => Err(Stop::Failed(error)),
    }
}

/// The objects in rows.
fn listed_bsos_at(rows: &Vec<Vec<String>>) -> (bsos: Result<Vec<GetBso>, Stop>)
    ensures
        outcome(bsos) == listed_bsos(rows.deep_view()),
{
    let ghost all = rows.deep_view();
    let mut bsos: Vec<GetBso> = Vec::new();
    let mut i: usize = 0;
    while i < rows.len()
        invariant
            i <= rows.len(),
            all == rows.deep_view(),
            bsos.len() == i,
            forall|j: int|
                0 <= j < i ==> (#[trigger] listed_bso(all[j])) == Ok::<BsoView, StopView>(
                    bsos@[j].deep_view(),
                ),
        decreases rows.len() - i,
    {
        assert(all[i as int] == rows@[i as int].deep_view());
        match listed_bso_at(&rows[i]) {
            Ok(bso) => bsos.push(bso),
            Err(_) => {
                assert(listed_bso(all[i as int]) is Err);
                return Err(Stop::Fault);
            },
        }
        i += 1;
    }
    proof {
        assert(bsos.deep_view() =~= Seq::new(all.len(), |i: int| listed_bso(all[i])->Ok_0));
    }
    Ok(bsos)
}

impl SpannerDb {
    /// A page of the live objects of a collection.
    pub fn get_bsos_sync(&mut self, params: params::GetBsos) -> (page: Result<GetBsos, Stop>)
        ensures
            follows(
                old(self)@.get_bsos(
                    params.user_id.legacy_id as i32,
                    params.collection@,
                    params.params@,
                ),
                *final(self),
                page,
            ),
    {
        let user_id: i32 =
            #[verifier::truncate]
            (params.user_id.legacy_id as i32);
        let collection_id = self.get_collection_id(&params.collection)?;
        let now = match to_rfc3339(self.timestamp().as_i64()) {
            Ok(now) => now,
            Err(error) => return Err(Stop::Failed(error)),
        };
        let older = written_text(params.params.older)?;
        let newer = written_text(params.params.newer)?;
        let query = params.params.sql();
        let mut request = self.sql(query.as_str())?;
        params.params.bind(&mut request, user_id, collection_id, now, older, newer);
        let result = self.execute(request)?;
        let bsos = listed_bsos_at(&result.rows)?;
        params.params.page(bsos)
    }

    /// The ids of a page of the live objects of a collection.
    pub fn get_bso_ids_sync(&mut self, params: params::GetBsos) -> (page: Result<GetBsoIds, Stop>)
        ensures
            follows(
                old(self)@.get_bso_ids(
                    params.user_id.legacy_id as i32,
                    params.collection@,
                    params.params@,
                ),
                *final(self),
                page,
            ),
    {
        let page = self.get_bsos_sync(params)?;
        let ghost view = page.deep_view();
        let mut items: Vec<String> = Vec::new();
        let mut i: usize = 0;
        while i < page.items.len()
            invariant
                i <= page.items.len(),
                items.len() == i,
                forall|j: int| 0 <= j < i ==> #[trigger] items@[j]@ == page.items@[j].id@,
            decreases page.items.len() - i,
        {
            items.push(page.items[i].id.clone());
            i += 1;
        }
        assert(items.deep_view() =~= Seq::new(view.items.len(), |i: int| view.items[i].id));
        Ok(GetBsoIds { items, offset: page.offset })
    }

    /// The live object of that id, if there is one.
    pub fn get_bso_sync(&mut self, params: params::GetBso) -> (bso: Result<Option<GetBso>, Stop>)
        ensures
            follows(
                old(self)@.get_bso(params.user_id.legacy_id, params.collection@, params.id@),
                *final(self),
                bso,
            ),
    {
        let collection_id = self.get_collection_id(&params.collection)?;
        let mut request = self.collection_sql(
            "SELECT id, modified, payload, coalesce(sortindex, 0), ttl FROM bso WHERE userid=@userid AND collection=@collectionid AND id=@bsoid AND ttl > @timestamp",
            natural_text(params.user_id.legacy_id),
            collection_id,
        )?;
        let now = match to_rfc3339(self.timestamp().as_i64()) {
            Ok(now) => now,
            Err(error) => return Err(Stop::Failed(error)),
        };
        request.set("bsoid", params.id.clone());
        request.set("timestamp", now);
        request.set_type("timestamp", SpannerType::Timestamp);
        let result = self.execute(request)?;
        match result.one_or_none()? {
            None => Ok(None),
            Some(row) => Ok(Some(single_bso_at(row)?)),
        }
    }

    /// When the live object of that id was modified.
    pub fn get_bso_timestamp_sync(&mut self, params: GetBsoTimestamp) -> (stamp: Result<
        SyncTimestamp,
        Stop,
    >)
        ensures
            follows(
                old(self)@.get_bso_timestamp(
                    params.user_id.id32(),
                    params.collection@,
                    params.id@,
                ),
                *final(self),
                stamp,
            ),
    {
        let user_id = params.user_id.as_u32();
        let collection_id = self.get_collection_id(&params.collection)?;
        let mut request = self.collection_sql(
            "SELECT modified FROM bso WHERE collection=@collectionid AND userid=@userid AND id=@bsoid AND ttl>@ttl",
            natural_text(user_id as u64),
            collection_id,
        )?;
        let now = match to_rfc3339(self.timestamp().as_i64()) {
            Ok(now) => now,
            Err(error) => return Err(Stop::Failed(error)),
        };
        request.set("bsoid", params.id.clone());
        request.set("ttl", now);
        request.set_type("ttl", SpannerType::Timestamp);
        let result = self.execute(request)?;
        match result.one_or_none()? {
            None => Ok(SyncTimestamp::zero()),
            Some(row) => stamp_at(row, 0),
        }
    }
}

} // verus!
