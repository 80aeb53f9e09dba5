//! Writing objects.

use vstd::prelude::*;
use vstd::string::*;

use crate::conn::{ExecuteSqlRequest, RequestView, ResultSetView, RowView, SpannerType, SqlView};
use crate::db::{follows, DbView, SpannerDb, Step};
use crate::decimal::{decimal, decimal_text, natural, natural_text};
use crate::error::{message, ErrorView, Stop, StopView};
use crate::params::{self, PostCollectionBso, PutBso};
use crate::read::{set_time, time_param};
use crate::results::{PostBsos, PostView};
use crate::timestamp::{reads_back, text_of, to_rfc3339, SyncTimestamp, FIRST_INSTANT, LAST_INSTANT};

verus! {

/// The ttl to use for rows that are never supposed to expire (in seconds)
pub const DEFAULT_BSO_TTL: i64 = 2_100_000_000;

/// What is written of an object.
pub struct PutView {
    pub id: Seq<char>,
    pub sortindex: Option<i32>,
    pub payload: Option<Seq<char>>,
    pub ttl: Option<u32>,
}

impl PutBso {
    /// What is written of the object.
    pub open spec fn bso(self) -> PutView {
        PutView {
            id: self.id@,
            sortindex: self.sortindex,
            payload: self.payload.deep_view(),
            ttl: self.ttl,
        }
    }
}

impl DeepView for PostCollectionBso {
    type V = PutView;

    open spec fn deep_view(&self) -> PutView {
        PutView {
            id: self.id@,
            sortindex: self.sortindex,
            payload: self.payload.deep_view(),
            ttl: self.ttl,
        }
    }
}

/// Texts, separated by commas.
pub open spec fn comma_separated(parts: Seq<Seq<char>>) -> Seq<char>
    decreases parts.len(),
{
    if parts.len() == 0 {
        Seq::empty()
    } else if parts.len() == 1 {
        parts[0]
    } else {
        comma_separated(parts.drop_last()) + ", "@ + parts.last()
    }
}

/// One text or none.
pub open spec fn part(there: bool, text: Seq<char>) -> Seq<Seq<char>> {
    if there {
        seq![text]
    } else {
        Seq::empty()
    }
}

impl PutView {
    /// Whether the object counts as modified.
    pub open spec fn modifies(self) -> bool {
        self.payload is Some || self.sortindex is Some
    }

    /// What is set of an object that exists.
    pub open spec fn assignments(self) -> Seq<Seq<char>> {
        part(self.sortindex is Some, "sortindex = @sortindex"@) + part(
            self.ttl is Some,
            "ttl = @expiry"@,
        ) + part(self.modifies(), "modified = @modified"@) + part(
            self.payload is Some,
            "payload = @payload"@,
        )
    }

    /// When the object ceases to live, if a time to live is given.
    pub open spec fn new_expiry(self, now: int) -> Option<int> {
        match self.ttl {
            Some(ttl) => Some(now + ttl * 1000),
            None => None,
        }
    }

    /// When the object ceases to live, if it is new.
    pub open spec fn first_expiry(self, now: int) -> int {
        match self.ttl {
            Some(ttl) => now + ttl * 1000,
            None => now + DEFAULT_BSO_TTL * 1000,
        }
    }

    /// The payload of the object, if it is new.
    pub open spec fn first_payload(self) -> Seq<char> {
        match self.payload {
            Some(payload) => payload,
            None => "DEFAULT"@,
        }
    }

    /// The statement that updates the object.
    pub open spec fn update_sql(self) -> Seq<char> {
        "UPDATE bso SET "@ + comma_separated(self.assignments())
            + " WHERE userid = @userid AND collection = @collectionid AND id = @bsoid"@
    }

    /// The statement that inserts the object.
    pub open spec fn insert_sql(self) -> Seq<char> {
        if self.sortindex is Some {
            "INSERT INTO bso (userid, collection, id, sortindex, payload, modified, ttl) VALUES (@userid, @collectionid, @bsoid, @sortindex, @payload, @modified, @expiry)"@
        } else {
            "INSERT INTO bso (userid, collection, id, payload, modified, ttl) VALUES (@userid, @collectionid, @bsoid,  @payload, @modified, @expiry)"@
        }
    }

    /// The statement with the sort index, if one is given.
    pub open spec fn bind_sortindex(self, request: SqlView) -> SqlView {
        match self.sortindex {
            Some(sortindex) => request.with("sortindex"@, decimal(sortindex as int)).typed(
                "sortindex"@,
                SpannerType::Int64,
            ),
            None => request,
        }
    }

    /// The statement that updates the object, with its parameters: `modified` and `expiry` are
    /// the texts of times.
    pub open spec fn bind_update(
        self,
        request: SqlView,
        modified: Seq<char>,
        expiry: Option<Seq<char>>,
    ) -> SqlView {
        let request = self.bind_sortindex(request.with("bsoid"@, self.id));
        let request = time_param(request, "expiry"@, expiry);
        let request = time_param(
            request,
            "modified"@,
            if self.modifies() {
                Some(modified)
            } else {
                None
            },
        );
        match self.payload {
            Some(payload) => request.with("payload"@, payload),
            None => request,
        }
    }

    /// The statement that inserts the object, with its parameters: `modified` and `expiry` are
    /// the texts of times.
    pub open spec fn bind_insert(
        self,
        request: SqlView,
        modified: Seq<char>,
        expiry: Seq<char>,
    ) -> SqlView {
        let request = self.bind_sortindex(request.with("bsoid"@, self.id)).with(
            "payload"@,
            self.first_payload(),
        );
        time_param(time_param(request, "expiry"@, Some(expiry)), "modified"@, Some(modified))
    }

    /// The text of when the object ceases to live, if a time to live is given.
    pub open spec fn new_expiry_text(self, now: int) -> Result<Option<Seq<char>>, ErrorView> {
        match self.new_expiry(now) {
            Some(expiry) => match text_of(expiry) {
                Ok(text) => Ok(Some(text)),
                Err(error) => Err(error),
            },
            None => Ok(None),
        }
    }
}

impl DbView {
    /// Updates an object; with nothing to set, nothing is sent.
    pub open spec fn update_bso(self, userid: Seq<char>, collection_id: i32, bso: PutView) -> Step<
        (),
    > {
        if bso.assignments().len() == 0 {
            self.done(())
        } else {
            match (bso.new_expiry_text(self.timestamp), text_of(self.timestamp)) {
                (Err(error), _) => self.fail(error),
                (_, Err(error)) => self.fail(error),
                (Ok(expiry), Ok(modified)) => self.collection_sql(
                    bso.update_sql(),
                    userid,
                    collection_id,
                ).and_then(
                    |db: DbView, request: SqlView|
                        db.execute(bso.bind_update(request, modified, expiry)),
                ).and_then(|db: DbView, _result: ResultSetView| db.done(())),
            }
        }
    }

    /// Inserts an object.
    pub open spec fn insert_bso(self, userid: Seq<char>, collection_id: i32, bso: PutView) -> Step<
        (),
    > {
        match (text_of(bso.first_expiry(self.timestamp)), text_of(self.timestamp)) {
            (Err(error), _) => self.fail(error),
            (_, Err(error)) => self.fail(error),
            (Ok(expiry), Ok(modified)) => self.collection_sql(
                bso.insert_sql(),
                userid,
                collection_id,
            ).and_then(
                |db: DbView, request: SqlView|
                    db.execute(bso.bind_insert(request, modified, expiry)),
            ).and_then(|db: DbView, _result: ResultSetView| db.done(())),
        }
    }

    /// Looks whether an object exists.
    pub open spec fn look_at(self, userid: Seq<char>, collection_id: i32, bso: Seq<char>) -> Step<
        Option<RowView>,
    > {
        self.collection_sql(
            "SELECT 1 as count FROM bso WHERE userid = @userid AND collection = @collectionid AND id = @bsoid"@,
            userid,
            collection_id,
        ).and_then(|db: DbView, request: SqlView| db.find(request.with("bsoid"@, bso)))
    }

    /// Updates an object that exists, and inserts one that does not.
    pub open spec fn write_bso(self, userid: Seq<char>, collection_id: i32, bso: PutView) -> Step<
        (),
    > {
        self.look_at(userid, collection_id, bso.id).and_then(
            |db: DbView, row: Option<RowView>|
                if row is Some {
                    db.update_bso(userid, collection_id, bso)
                } else {
                    db.insert_bso(userid, collection_id, bso)
                },
        )
    }

    /// Touches a collection, which is created where it does not exist, and writes an object
    /// in it.
    pub open spec fn put_bso(self, user: u64, name: Seq<char>, bso: PutView) -> Step<int> {
        self.get_or_create_collection_id(name).and_then(
            |db: DbView, id: i32| db.touch_and_write(user, id, bso),
        )
    }

    /// Touches the collection of that id and writes an object in it.
    pub open spec fn touch_and_write(self, user: u64, collection_id: i32, bso: PutView) -> Step<
        int,
    > {
        self.touch_collection(user as u32, collection_id).and_then(
            |db: DbView, touch: int|
                db.write_bso(natural(user as nat), collection_id, bso).and_then(
                    |db: DbView, _u: ()| db.done(touch),
                ),
        )
    }

    /// Writes objects one after the other. One that cannot be written is reported with its
    /// error, and the others are written all the same.
    pub open spec fn post_each(
        self,
        user: u64,
        name: Seq<char>,
        bsos: Seq<PutView>,
        result: PostView,
    ) -> Step<PostView>
        decreases bsos.len(),
    {
        if bsos.len() == 0 {
            self.done(result)
        } else {
            let put = self.put_bso(user, name, bsos[0]);
            match put.out {
                Ok(_) => put.db.post_each(
                    user,
                    name,
                    bsos.drop_first(),
                    PostView { success: result.success.push(bsos[0].id), ..result },
                ),
                Err(StopView::Failed(error)) => put.db.post_each(
                    user,
                    name,
                    bsos.drop_first(),
                    PostView { failed: result.failed.insert(bsos[0].id, message(error)), ..result },
                ),
                Err(stop) => Step { db: put.db, out: Err(stop) },
            }
        }
    }

    /// Writes objects and touches their collection, which is created where it does not exist.
    pub open spec fn post_bsos(
        self,
        user: u64,
        name: Seq<char>,
        bsos: Seq<PutView>,
        failed: Map<Seq<char>, Seq<char>>,
    ) -> Step<PostView> {
        self.get_or_create_collection_id(name).and_then(
            |db: DbView, id: i32| db.post_all(user, name, id, bsos, failed),
        )
    }

    /// Writes objects and touches the collection of that id.
    pub open spec fn post_all(
        self,
        user: u64,
        name: Seq<char>,
        collection_id: i32,
        bsos: Seq<PutView>,
        failed: Map<Seq<char>, Seq<char>>,
    ) -> Step<PostView> {
        self.post_each(
            user,
            name,
            bsos,
            PostView { modified: self.timestamp, success: Seq::empty(), failed },
        ).and_then(
            |db: DbView, result: PostView|
                db.touch_collection(user as u32, collection_id).and_then(
                    |db: DbView, _touch: int| db.done(result),
                ),
        )
    }
}

/// The last statement on the connection inserts the object.
pub open spec fn inserts(db: DbView, bso: PutView) -> bool {
    &&& db.conn.sent.len() > 0
    &&& db.conn.sent.last() matches RequestView::Execute(request)
    &&& request.sql == bso.insert_sql()
}

/// The last statement on the connection updates the object.
pub open spec fn updates(db: DbView, bso: PutView) -> bool {
    &&& db.conn.sent.len() > 0
    &&& db.conn.sent.last() matches RequestView::Execute(request)
    &&& request.sql == bso.update_sql()
}

/// The statements that look at an object, update it and insert it are different.
pub proof fn lemma_statements_differ(bso: PutView)
    ensures
        bso.update_sql() != bso.insert_sql(),
        "SELECT 1 as count FROM bso WHERE userid = @userid AND collection = @collectionid AND id = @bsoid"@
            != bso.update_sql(),
        "SELECT 1 as count FROM bso WHERE userid = @userid AND collection = @collectionid AND id = @bsoid"@
            != bso.insert_sql(),
{
    reveal_strlit("UPDATE bso SET ");
    reveal_strlit(
        "SELECT 1 as count FROM bso WHERE userid = @userid AND collection = @collectionid AND id = @bsoid",
    );
    reveal_strlit(
        "INSERT INTO bso (userid, collection, id, sortindex, payload, modified, ttl) VALUES (@userid, @collectionid, @bsoid, @sortindex, @payload, @modified, @expiry)",
    );
    reveal_strlit(
        "INSERT INTO bso (userid, collection, id, payload, modified, ttl) VALUES (@userid, @collectionid, @bsoid,  @payload, @modified, @expiry)",
    );
    assert(bso.update_sql()[0] == 'U');
    assert(bso.insert_sql()[0] == 'I');
}

/// A collection is touched only at a time that can be written.
proof fn lemma_touch_timestamp(db: DbView, user: u32, collection_id: i32)
    ensures
        db.touch_collection(user, collection_id).db.timestamp == db.timestamp,
        db.touch_collection(user, collection_id).out is Ok ==> FIRST_INSTANT <= db.timestamp
            <= LAST_INSTANT,
{
}

/// Adds an assignment to a list of them.
fn assign(q: &mut String, text: &str, Ghost(parts): Ghost<Seq<Seq<char>>>)
    requires
        old(q)@ == comma_separated(parts),
        parts.len() == 0 <==> old(q)@.len() == 0,
        text@.len() > 0,
    ensures
        final(q)@ == comma_separated(parts.push(text@)),
        final(q)@.len() > 0,
{
    let ghost all = parts.push(text@);
    if !q.as_str().is_empty() {
        q.append(", ");
    }
    q.append(text);
    assert(all.drop_last() =~= parts);
    assert(q@ =~= comma_separated(all));
}

impl PutBso {
    /// The assignments of an update, separated by commas.
    pub fn assignments(&self) -> (q: String)
        ensures
            q@ == comma_separated(self.bso().assignments()),
            q@.len() == 0 <==> self.bso().assignments().len() == 0,
    {
        proof {
            reveal_strlit("sortindex = @sortindex");
            reveal_strlit("ttl = @expiry");
            reveal_strlit("modified = @modified");
            reveal_strlit("payload = @payload");
        }
        let mut q = String::new();
        let ghost mut parts: Seq<Seq<char>> = Seq::empty();
        if self.sortindex.is_some() {
            assign(&mut q, "sortindex = @sortindex", Ghost(parts));
        }
        proof {
            parts = part(self.sortindex is Some, "sortindex = @sortindex"@);
            assert(self.sortindex is Some ==> parts =~= Seq::empty().push("sortindex = @sortindex"@));
        }
        if self.ttl.is_some() {
            assign(&mut q, "ttl = @expiry", Ghost(parts));
            assert(parts.push("ttl = @expiry"@) =~= parts + part(true, "ttl = @expiry"@));
        }
        proof {
            let next = parts + part(self.ttl is Some, "ttl = @expiry"@);
            assert(self.ttl is None ==> next =~= parts);
            parts = next;
        }
        if self.payload.is_some() || self.sortindex.is_some() {
            assign(&mut q, "modified = @modified", Ghost(parts));
            assert(parts.push("modified = @modified"@) =~= parts + part(
                true,
                "modified = @modified"@,
            ));
        }
        proof {
            let next = parts + part(self.bso().modifies(), "modified = @modified"@);
            assert(!self.bso().modifies() ==> next =~= parts);
            parts = next;
        }
        if self.payload.is_some() {
            assign(&mut q, "payload = @payload", Ghost(parts));
            assert(parts.push("payload = @payload"@) =~= parts + part(true, "payload = @payload"@));
        }
        proof {
            let next = parts + part(self.payload is Some, "payload = @payload"@);
            assert(self.payload is None ==> next =~= parts);
        }
        q
    }

    /// The statement that updates the object.
    pub fn update_sql(&self) -> (sql: String)
        ensures
            sql@ == self.bso().update_sql(),
    {
        let mut sql = "UPDATE bso SET ".to_owned();
        sql.append(self.assignments().as_str());
        sql.append(" WHERE userid = @userid AND collection = @collectionid AND id = @bsoid");
        assert(sql@ =~= self.bso().update_sql());
        sql
    }

    /// The statement that inserts the object.
    pub fn insert_sql(&self) -> (sql: String)
        ensures
            sql@ == self.bso().insert_sql(),
    {
        if self.sortindex.is_some() {
            "INSERT INTO bso (userid, collection, id, sortindex, payload, modified, ttl) VALUES (@userid, @collectionid, @bsoid, @sortindex, @payload, @modified, @expiry)".to_owned()
        } else {
            "INSERT INTO bso (userid, collection, id, payload, modified, ttl) VALUES (@userid, @collectionid, @bsoid,  @payload, @modified, @expiry)".to_owned()
        }
    }

    /// Gives the sort index as a parameter, if there is one.
    fn bind_sortindex(&self, request: &mut ExecuteSqlRequest)
        ensures
            final(request).deep_view() == self.bso().bind_sortindex(old(request).deep_view()),
    {
        if let Some(sortindex) = self.sortindex {
            request.set("sortindex", decimal_text(sortindex as i64));
            request.set_type("sortindex", SpannerType::Int64);
        }
    }

    /// Gives the parameters of an update their values: `modified` and `expiry` are the texts of
    /// times.
    pub fn bind_update(
        &self,
        request: &mut ExecuteSqlRequest,
        modified: String,
        expiry: Option<String>,
    )
        ensures
            final(request).deep_view() == self.bso().bind_update(
                old(request).deep_view(),
                modified@,
                expiry.deep_view(),
            ),
    {
        request.set("bsoid", self.id.clone());
        self.bind_sortindex(request);
        set_time(request, "expiry", expiry);
        if self.payload.is_some() || self.sortindex.is_some() {
            set_time(request, "modified", Some(modified));
        }
        if let Some(payload) = &self.payload {
            request.set("payload", payload.clone());
        }
    }

    /// Gives the parameters of an insertion their values: `modified` and `expiry` are the texts
    /// of times.
    pub fn bind_insert(&self, request: &mut ExecuteSqlRequest, modified: String, expiry: String)
        ensures
            final(request).deep_view() == self.bso().bind_insert(
                old(request).deep_view(),
                modified@,
                expiry@,
            ),
    {
        request.set("bsoid", self.id.clone());
        self.bind_sortindex(request);
        let payload = match &self.payload {
            Some(payload) => payload.clone(),
            None => "DEFAULT".to_owned(),
        };
        request.set("payload", payload);
        set_time(request, "expiry", Some(expiry));
        set_time(request, "modified", Some(modified));
    }
}

/// The text of an instant, or the end of the operation.
fn time_text(millis: i64) -> (text: Result<String, Stop>)
    ensures
        match text {
            Ok(t) => text_of(millis as int) == Ok::<Seq<char>, ErrorView>(t@) && reads_back(
                millis as int,
            ),
            Err(stop) => text_of(millis as int) is Err && stop@ == StopView::Failed(
                text_of(millis as int)->Err_0,
            ),
        },
{
    match to_rfc3339(millis) {
        Ok(text) => Ok(text),
        Err(error) => Err(Stop::Failed(error)),
    }
}

impl SpannerDb {
    /// Updates an object.
    fn update_bso(&mut self, collection_id: i32, bso: &PutBso) -> (done: Result<(), Stop>)
        requires
            FIRST_INSTANT <= old(self)@.timestamp <= LAST_INSTANT,
        ensures
            follows(
                old(self)@.update_bso(
                    natural(bso.user_id.legacy_id as nat),
                    collection_id,
                    bso.bso(),
                ),
                *final(self),
                done,
            ),
            done is Ok ==> (bso.bso().new_expiry(old(self)@.timestamp) matches Some(expiry)
                ==> reads_back(expiry)),
    {
        let timestamp = self.timestamp().as_i64();
        let assignments = bso.assignments();
        if assignments.as_str().is_empty() {
            // Nothing to update
            return Ok(());
        }
        let expiry: Option<String> = match bso.ttl {
            Some(ttl) => Some(time_text(timestamp + ttl as i64 * 1000)?),
            None => None,
        };
        let modified = time_text(timestamp)?;
        let mut request = self.collection_sql(
            bso.update_sql().as_str(),
            natural_text(bso.user_id.legacy_id),
            collection_id,
        )?;
        bso.bind_update(&mut request, modified, expiry);
        self.execute(request)?;
        Ok(())
    }

    /// Inserts an object.
    fn insert_bso(&mut self, collection_id: i32, bso: &PutBso) -> (done: Result<(), Stop>)
        requires
            FIRST_INSTANT <= old(self)@.timestamp <= LAST_INSTANT,
        ensures
            follows(
                old(self)@.insert_bso(
                    natural(bso.user_id.legacy_id as nat),
                    collection_id,
                    bso.bso(),
                ),
                *final(self),
                done,
            ),
            done is Ok ==> reads_back(bso.bso().first_expiry(old(self)@.timestamp)),
    {
        let timestamp = self.timestamp().as_i64();
        let ttl: i64 = match bso.ttl {
            Some(ttl) => ttl as i64,
            None => DEFAULT_BSO_TTL,
        };
        let expiry = time_text(timestamp + ttl * 1000)?;
        let modified = time_text(timestamp)?;
        let mut request = self.collection_sql(
            bso.insert_sql().as_str(),
            natural_text(bso.user_id.legacy_id),
            collection_id,
        )?;
        bso.bind_insert(&mut request, modified, expiry);
        self.execute(request)?;
        Ok(())
    }

    /// Writes an object.
    pub fn put_bso_sync(&mut self, bso: PutBso) -> (touch: Result<SyncTimestamp, Stop>)
        ensures
            follows(
                old(self)@.put_bso(bso.user_id.legacy_id, bso.collection@, bso.bso()),
                *final(self),
                touch,
            ),
            touch is Ok ==> reads_back(old(self)@.timestamp),
            touch is Ok ==> (bso.bso().new_expiry(old(self)@.timestamp) matches Some(expiry)
                ==> reads_back(expiry)),
            touch is Ok ==> (inserts(final(self)@, bso.bso()) ==> reads_back(
                bso.bso().first_expiry(old(self)@.timestamp),
            )),
    {
        let collection_id = self.get_or_create_collection_id(&bso.collection)?;
        let ghost before = self@;
        let touch = self.touch_collection(bso.user_id.as_u32(), collection_id)?;
        proof {
            lemma_touch_timestamp(before, bso.user_id.id32(), collection_id);
        }
        let mut request = self.collection_sql(
            "SELECT 1 as count FROM bso WHERE userid = @userid AND collection = @collectionid AND id = @bsoid",
            natural_text(bso.user_id.legacy_id),
            collection_id,
        )?;
        request.set("bsoid", bso.id.clone());
        let exists = self.execute(request)?.one_or_none()?.is_some();
        if exists {
            proof {
                lemma_statements_differ(bso.bso());
            }
            self.update_bso(collection_id, &bso)?;
        } else {
            self.insert_bso(collection_id, &bso)?;
        }
        Ok(touch)
    }

    /// Writes objects.
    pub fn post_bsos_sync(&mut self, input: params::PostBsos) -> (result: Result<PostBsos, Stop>)
        ensures
            follows(
                old(self)@.post_bsos(
                    input.user_id.legacy_id,
                    input.collection@,
                    input.bsos.deep_view(),
                    input.failed@,
                ),
                *final(self),
                result,
            ),
    {
        let collection_id = self.get_or_create_collection_id(&input.collection)?;
        let result = self.post_each(&input)?;
        self.touch_collection(input.user_id.as_u32(), collection_id)?;
        Ok(result)
    }

    /// Writes objects one after the other.
    #[verifier::rlimit(60)]
    fn post_each(&mut self, input: &params::PostBsos) -> (result: Result<PostBsos, Stop>)
        ensures
            follows(
                old(self)@.post_each(
                    input.user_id.legacy_id,
                    input.collection@,
                    input.bsos.deep_view(),
                    PostView {
                        modified: old(self)@.timestamp,
                        success: Seq::empty(),
                        failed: input.failed@,
                    },
                ),
                *final(self),
                result,
            ),
    {
        let ghost bsos = input.bsos.deep_view();
        let mut result = PostBsos {
            modified: self.timestamp(),
            success: Vec::new(),
            failed: input.failed.clone(),
        };
        let ghost start = result.deep_view();
        let mut i: usize = 0;
        assert(bsos.skip(0) =~= bsos);
        assert(start.success =~= Seq::empty());
        while i < input.bsos.len()
            invariant
                i <= input.bsos.len(),
                bsos == input.bsos.deep_view(),
                start == (PostView {
                    modified: old(self)@.timestamp,
                    success: Seq::empty(),
                    failed: input.failed@,
                }),
                self@.post_each(
                    input.user_id.legacy_id,
                    input.collection@,
                    bsos.skip(i as int),
                    result.deep_view(),
                ) == old(self)@.post_each(
                    input.user_id.legacy_id,
                    input.collection@,
                    bsos,
                    start,
                ),
            decreases input.bsos.len() - i,
        {
            assert(bsos.skip(i as int)[0] == input.bsos@[i as int].deep_view());
            assert(bsos.skip(i as int).drop_first() =~= bsos.skip(i + 1));
            let pbso = &input.bsos[i];
            let payload: Option<String> = match &pbso.payload {
                Some(payload) => Some(payload.clone()),
                None => None,
            };
            let put = PutBso {
                user_id: input.user_id,
                collection: input.collection.clone(),
                id: pbso.id.clone(),
                sortindex: pbso.sortindex,
                payload,
                ttl: pbso.ttl,
            };
            let ghost before = result.deep_view();
            match self.put_bso_sync(put) {
                Ok(_) => {
                    result.success.push(pbso.id.clone());
                    assert(result.deep_view().success =~= before.success.push(pbso.id@));
                },
                Err(Stop::Failed(error)) => {
                    result.failed.insert(pbso.id.clone(), error.to_text());
                },
                Err(stop) => return Err(stop),
            }
            i += 1;
        }
        assert(bsos.skip(i as int) =~= Seq::empty());
        Ok(result)
    }
}

} // verus!
