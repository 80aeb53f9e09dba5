//! Figures about all collections of a user, by collection name.

use vstd::prelude::*;

use crate::conn::{ResultSetView, RowView, SqlView};
use crate::db::{follows, DbView, SpannerDb, Step};
use crate::decimal::natural_text;
use crate::error::{outcome, DbError, ErrorView, Stop, StopView};
use crate::params::UserIdentifier;
use crate::rows::{
    cell, i32_at, i32_cell, i64_at, i64_cell, must, stamp_at, stamp_cell, text_at,
};
use crate::table::{distinct_keys, lemma_map_of, map_of, Table, Value};
use crate::timestamp::SyncTimestamp;

verus! {

/// What rows of an id and a value hold, by id: the last value where an id occurs twice, and
/// the error of the first row that cannot be read.
pub open spec fn collect<V>(
    rows: Seq<RowView>,
    read: spec_fn(RowView) -> Result<(i32, V), StopView>,
) -> Result<Map<i32, V>, StopView>
    decreases rows.len(),
{
    if rows.len() == 0 {
        Ok(Map::empty())
    } else {
        match collect(rows.drop_last(), read) {
            Err(stop) => Err(stop),
            Ok(before) => match read(rows.last()) {
                Err(stop) => Err(stop),
                Ok(entry) => Ok(before.insert(entry.0, entry.1)),
            },
        }
    }
}

/// A row of a collection id and a time stamp.
pub open spec fn stamp_row(row: RowView) -> Result<(i32, int), StopView> {
    match i32_cell(row, 0) {
        Err(stop) => Err(stop),
        Ok(id) => match stamp_cell(row, 1) {
            Err(stop) => Err(stop),
            Ok(stamp) => Ok((id, stamp)),
        },
    }
}

/// A row of a collection id and a number.
pub open spec fn number_row(row: RowView) -> Result<(i32, i64), StopView> {
    match i32_cell(row, 0) {
        Err(stop) => Err(stop),
        Ok(id) => match i64_cell(row, 1) {
            Err(stop) => Err(stop),
            Ok(number) => Ok((id, number)),
        },
    }
}

/// Rows that start with unreadable ones cannot be read.
proof fn lemma_collect_prefix<V>(
    rows: Seq<RowView>,
    read: spec_fn(RowView) -> Result<(i32, V), StopView>,
    n: int,
)
    requires
        0 <= n <= rows.len(),
        collect(rows.take(n), read) is Err,
    ensures
        collect(rows, read) == collect(rows.take(n), read),
    decreases rows.len() - n,
{
    if n < rows.len() {
        assert(rows.take(n + 1).drop_last() =~= rows.take(n));
        lemma_collect_prefix(rows, read, n + 1);
    } else {
        assert(rows.take(n) =~= rows);
    }
}

/// The values of `by_id` under the names of their ids: every name that an id has is there,
/// and under each name stands the value of an id of that name.
pub open spec fn is_renaming<V>(
    by_id: Map<i32, V>,
    names: Map<i32, Seq<char>>,
    by_name: Map<Seq<char>, V>,
) -> bool {
    &&& forall|id: i32| #[trigger] by_id.contains_key(id) ==> by_name.contains_key(names[id])
    &&& forall|name: Seq<char>| #[trigger]
        by_name.contains_key(name) ==> exists|id: i32| #[trigger]
            by_id.contains_key(id) && names[id] == name && by_name[name] == by_id[id]
}

/// The storage is that of a step, and the outcome are the step's values under the step's names.
pub open spec fn names_follow<T: DeepView + Value>(
    step: Step<(Map<i32, T::V>, Map<i32, Seq<char>>)>,
    db: SpannerDb,
    result: Result<Table<String, T>, Stop>,
) -> bool {
    &&& db@ == step.db
    &&& match (step.out, result) {
        (Ok((by_id, names)), Ok(by_name)) => is_renaming(by_id, names, by_name@),
        (Err(stop), Err(error)) => stop == error@,
        _ => false,
    }
}

impl DbView {
    /// Keeps the names of the collections that were not cached, in `names` and in the cache.
    pub open spec fn learn_names(
        self,
        uncached: Set<i32>,
        names: Map<i32, Seq<char>>,
        rows: Seq<RowView>,
    ) -> Step<Map<i32, Seq<char>>>
        decreases rows.len(),
    {
        if rows.len() == 0 {
            self.done(names)
        } else {
            match (must(i32_cell(rows[0], 0)), cell(rows[0], 1)) {
                (Ok(id), Ok(name)) => if uncached.contains(id) {
                    self.cache_put(id, name).learn_names(
                        uncached,
                        names.insert(id, name),
                        rows.drop_first(),
                    )
                } else {
                    self.learn_names(uncached, names, rows.drop_first())
                },
                _ => self.fault(),
            }
        }
    }

    /// The names of collections: from the cache, and where it lacks one, from the database.
    pub open spec fn load_collection_names(self, ids: Set<i32>) -> Step<Map<i32, Seq<char>>> {
        let cached = self.cache.names.restrict(ids);
        let uncached = ids.difference(self.cache.names.dom());
        if uncached == Set::<i32>::empty() {
            self.done(cached)
        } else {
            self.sql("SELECT collectionid, name FROM collections"@).and_then(
                |db: DbView, request: SqlView| db.execute(request),
            ).and_then(
                |db: DbView, result: ResultSetView| db.learn_names(uncached, cached, result.rows),
            )
        }
    }

    /// Values by id, with a name for each of the ids.
    pub open spec fn map_collection_names<V>(self, by_id: Map<i32, V>) -> Step<
        (Map<i32, V>, Map<i32, Seq<char>>),
    > {
        self.load_collection_names(by_id.dom()).and_then(
            |db: DbView, names: Map<i32, Seq<char>>|
                if by_id.dom().subset_of(names.dom()) {
                    db.done((by_id, names))
                } else {
                    db.fail(ErrorView::Internal("load_collection_names get"@))
                },
        )
    }

    /// Runs a statement about a user whose rows hold a collection id and a value.
    pub open spec fn by_collection<V>(
        self,
        sql: Seq<char>,
        user: u32,
        read: spec_fn(RowView) -> Result<(i32, V), StopView>,
    ) -> Step<(Map<i32, V>, Map<i32, Seq<char>>)> {
        self.user_sql(sql, user).and_then(
            |db: DbView, result: ResultSetView| db.read(collect(result.rows, read)),
        ).and_then(|db: DbView, by_id: Map<i32, V>| db.map_collection_names(by_id))
    }

    /// When each collection of a user was last modified.
    pub open spec fn get_collection_timestamps(self, user: u32) -> Step<
        (Map<i32, int>, Map<i32, Seq<char>>),
    > {
        self.by_collection(
            "SELECT collection, last_modified FROM user_collections WHERE userid=@userid"@,
            user,
            |row: RowView| stamp_row(row),
        )
    }

    /// How many live objects each collection of a user has.
    pub open spec fn get_collection_counts(self, user: u32) -> Step<
        (Map<i32, i64>, Map<i32, Seq<char>>),
    > {
        self.by_collection(
            "SELECT collection, COUNT(collection) FROM bso WHERE userid=@userid AND ttl > CURRENT_TIMESTAMP() GROUP BY collection"@,
            user,
            |row: RowView| number_row(row),
        )
    }

    /// How much payload the live objects of each collection of a user hold.
    pub open spec fn get_collection_usage(self, user: u32) -> Step<
        (Map<i32, i64>, Map<i32, Seq<char>>),
    > {
        self.by_collection(
            "SELECT collection, SUM(LENGTH(payload)) FROM bso WHERE userid=@userid AND ttl > CURRENT_TIMESTAMP() GROUP BY collection"@,
            user,
            |row: RowView| number_row(row),
        )
    }
}

/// Whether the id is among the ids.
fn contains(ids: &Vec<i32>, id: i32) -> (found: bool)
    ensures
        found == ids@.contains(id),
{
    let mut i: usize = 0;
    while i < ids.len()
        invariant
            i <= ids.len(),
            forall|j: int| 0 <= j < i ==> ids@[j] != id,
        decreases ids.len() - i,
    {
        if ids[i] == id {
            return true;
        }
        i += 1;
    }
    false
}

/// Reads rows of a collection id and a time stamp.
fn collect_stamps(rows: &Vec<Vec<String>>) -> (by_id: Result<Table<i32, SyncTimestamp>, Stop>)
    ensures
        outcome(by_id) == collect(rows.deep_view(), |row: RowView| stamp_row(row)),
{
    let ghost all = rows.deep_view();
    let ghost read = |row: RowView| stamp_row(row);
    let mut by_id: Table<i32, SyncTimestamp> = Table::new();
    let mut i: usize = 0;
    assert(all.take(0) =~= Seq::empty());
    while i < rows.len()
        invariant
            i <= rows.len(),
            all == rows.deep_view(),
            read == (|row: RowView| stamp_row(row)),
            collect(all.take(i as int), read) == Ok::<Map<i32, int>, StopView>(by_id@),
        decreases rows.len() - i,
    {
        proof {
            assert(all.take(i + 1).drop_last() =~= all.take(i as int));
            assert(all.take(i + 1).last() == rows@[i as int].deep_view());
            if collect(all.take(i + 1), read) is Err {
                lemma_collect_prefix(all, read, i + 1);
            }
        }
        let id = i32_at(&rows[i], 0)?;
        let stamp = stamp_at(&rows[i], 1)?;
        by_id.insert(id, stamp);
        i += 1;
    }
    assert(all.take(i as int) =~= all);
    Ok(by_id)
}

/// Reads rows of a collection id and a number.
fn collect_numbers(rows: &Vec<Vec<String>>) -> (by_id: Result<Table<i32, i64>, Stop>)
    ensures
        outcome(by_id) == collect(rows.deep_view(), |row: RowView| number_row(row)),
{
    let ghost all = rows.deep_view();
    let ghost read = |row: RowView| number_row(row);
    let mut by_id: Table<i32, i64> = Table::new();
    let mut i: usize = 0;
    assert(all.take(0) =~= Seq::empty());
    while i < rows.len()
        invariant
            i <= rows.len(),
            all == rows.deep_view(),
            read == (|row: RowView| number_row(row)),
            collect(all.take(i as int), read) == Ok::<Map<i32, i64>, StopView>(by_id@),
        decreases rows.len() - i,
    {
        proof {
            assert(all.take(i + 1).drop_last() =~= all.take(i as int));
            assert(all.take(i + 1).last() == rows@[i as int].deep_view());
            if collect(all.take(i + 1), read) is Err {
                lemma_collect_prefix(all, read, i + 1);
            }
        }
        let id = i32_at(&rows[i], 0)?;
        let number = i64_at(&rows[i], 1)?;
        by_id.insert(id, number);
        i += 1;
    }
    assert(all.take(i as int) =~= all);
    Ok(by_id)
}

impl SpannerDb {
    /// The names of collections.
    pub fn load_collection_names(&mut self, collection_ids: &Vec<i32>) -> (names: Result<
        Table<i32, String>,
        Stop,
    >)
        ensures
            follows(
                old(self)@.load_collection_names(collection_ids@.to_set()),
                *final(self),
                names,
            ),
    {
        let ghost ids = collection_ids@.to_set();
        let ghost known = self@.cache.names;
        let mut names: Table<i32, String> = Table::new();
        let mut uncached: Vec<i32> = Vec::new();
        let mut i: usize = 0;
        assert(collection_ids@.take(0).to_set() =~= Set::empty());
        assert(names@ =~= known.restrict(Set::empty()));
        assert(uncached@.to_set() =~= Set::<i32>::empty().difference(known.dom()));
        while i < collection_ids.len()
            invariant
                i <= collection_ids.len(),
                self@ == old(self)@,
                known == self@.cache.names,
                names@ == known.restrict(collection_ids@.take(i as int).to_set()),
                uncached@.to_set() == collection_ids@.take(i as int).to_set().difference(
                    known.dom(),
                ),
            decreases collection_ids.len() - i,
        {
            let id = collection_ids[i];
            let ghost before = collection_ids@.take(i as int);
            let ghost after = collection_ids@.take(i + 1);
            let ghost uncached_before = uncached@;
            proof {
                lemma_take_to_set(collection_ids@, i as int);
            }
            match self.coll_cache.get_name(id) {
                Some(name) => {
                    names.insert(id, name);
                    assert(uncached@.to_set() =~= after.to_set().difference(known.dom()));
                },
                None => {
                    uncached.push(id);
                    proof {
                        lemma_push_to_set(uncached_before, id);
                    }
                    assert(uncached@.to_set() =~= after.to_set().difference(known.dom()));
                },
            }
            assert(names@ =~= known.restrict(after.to_set()));
            i += 1;
        }
        assert(collection_ids@.take(i as int) =~= collection_ids@);
        if uncached.len() == 0 {
            assert(uncached@.to_set() =~= Set::empty());
            return Ok(names);
        }
        proof {
            assert(uncached@.to_set().contains(uncached@[0]));
        }
        let request = self.sql("SELECT collectionid, name FROM collections")?;
        let result = self.execute(request)?;
        self.learn_names(&uncached, names, &result.rows)
    }

    /// Keeps the names of the collections that were not cached.
    pub fn learn_names(
        &mut self,
        uncached: &Vec<i32>,
        cached: Table<i32, String>,
        rows: &Vec<Vec<String>>,
    ) -> (names: Result<Table<i32, String>, Stop>)
        ensures
            follows(
                old(self)@.learn_names(uncached@.to_set(), cached@, rows.deep_view()),
                *final(self),
                names,
            ),
    {
        let ghost all = rows.deep_view();
        let mut names = cached;
        let mut i: usize = 0;
        assert(all.skip(0) =~= all);
        while i < rows.len()
            invariant
                i <= rows.len(),
                all == rows.deep_view(),
                self@.learn_names(uncached@.to_set(), names@, all.skip(i as int)) == old(
                    self,
                )@.learn_names(uncached@.to_set(), cached@, all),
            decreases rows.len() - i,
        {
            assert(all.skip(i as int)[0] == rows@[i as int].deep_view());
            assert(all.skip(i as int).drop_first() =~= all.skip(i + 1));
            let id = match i32_at(&rows[i], 0) {
                Ok(id) => id,
                Err(_) => return Err(Stop::Fault),
            };
            let name = text_at(&rows[i], 1)?.clone();
            if contains(uncached, id) {
                names.insert(id, name.clone());
                self.coll_cache.put(id, name);
            }
            i += 1;
        }
        Ok(names)
    }

    /// The values under the names of their collections.
    pub fn map_collection_names<T: Value>(&mut self, by_id: Table<i32, T>) -> (by_name: Result<
        Table<String, T>,
        Stop,
    >)
        ensures
            names_follow(old(self)@.map_collection_names(by_id@), *final(self), by_name),
    {
        let ids = by_id.keys();
        assert(ids.deep_view() =~= ids@);
        let mut names = self.load_collection_names(&ids)?;
        let ghost all = names@;
        let mut entries = by_id.into_entries();
        let ghost every = entries@;
        let mut by_name: Table<String, T> = Table::new();
        proof {
            lemma_map_of(every);
        }
        loop
            invariant
                old(self)@.load_collection_names(by_id@.dom()) == self@.done(all),
                by_id@ == map_of(every),
                distinct_keys(every),
                entries.len() <= every.len(),
                entries@ == every.take(entries.len() as int),
                forall|k: int| #![trigger every[k]]
                    0 <= k < entries.len() ==> (names@.contains_key(every[k].0)
                        <==> all.contains_key(every[k].0)) && (all.contains_key(every[k].0)
                        ==> names@[every[k].0] == all[every[k].0]),
                forall|k: int| #![trigger every[k]]
                    entries.len() <= k < every.len() ==> all.contains_key(every[k].0)
                        && by_name@.contains_key(all[every[k].0]),
                forall|name: Seq<char>| #[trigger]
                    by_name@.contains_key(name) ==> exists|k: int|
                        entries.len() <= k < every.len() && all[every[k].0] == name
                            && by_name@[name] == (#[trigger] every[k]).1.deep_view(),
            ensures
                entries.len() == 0,
            decreases entries.len(),
        {
            let ghost left = entries.len();
            match entries.pop() {
                None => {
                    break;
                },
                Some((id, value)) => {
                    assert(every[left - 1].0 == id);
                    match names.remove(&id) {
                        None => {
                            proof {
                                lemma_map_of(every);
                                assert(by_id@.contains_key(id.deep_view()));
                                assert(!all.contains_key(id));
                            }
                            return Err(
                                Stop::Failed(DbError::internal("load_collection_names get")),
                            );
                        },
                        Some(name) => {
                            let ghost before = by_name@;
                            by_name.insert(name, value);
                            assert(entries@ =~= every.take(left - 1));
                            assert forall|n: Seq<char>| #[trigger]
                                by_name@.contains_key(n) implies exists|k: int|
                                left - 1 <= k < every.len() && all[every[k].0] == n && by_name@[n]
                                    == (#[trigger] every[k]).1.deep_view() by {
                                if n == name@ {
                                    assert(every[left - 1].1.deep_view() == by_name@[n]);
                                } else {
                                    assert(before.contains_key(n));
                                }
                            }
                            assert forall|k: int| #![trigger every[k]]
                                0 <= k < entries.len() implies (names@.contains_key(every[k].0)
                                <==> all.contains_key(every[k].0)) && (all.contains_key(every[k].0)
                                ==> names@[every[k].0] == all[every[k].0]) by {
                                assert(every[k].0.deep_view() != every[left - 1].0.deep_view());
                            }
                        },
                    }
                },
            }
        }
        proof {
            lemma_map_of(every);
            assert forall|id: i32| #[trigger] by_id@.contains_key(id) implies by_name@.contains_key(
                all[id],
            ) && all.contains_key(id) by {
                let k = choose|k: int|
                    0 <= k < every.len() && #[trigger] every[k].0.deep_view() == id;
                assert(every[k].0 == id);
            }
            assert forall|name: Seq<char>| #[trigger] by_name@.contains_key(name) implies exists|
                id: i32,
            | #[trigger]
                by_id@.contains_key(id) && all[id] == name && by_name@[name] == by_id@[id] by {
                let k = choose|k: int|
                    0 <= k < every.len() && all[every[k].0] == name && by_name@[name]
                        == (#[trigger] every[k]).1.deep_view();
                assert(by_id@.contains_key(every[k].0.deep_view()));
            }
        }
        Ok(by_name)
    }

    /// When each collection of a user was last modified.
    pub fn get_collection_timestamps_sync(&mut self, user_id: UserIdentifier) -> (stamps: Result<
        Table<String, SyncTimestamp>,
        Stop,
    >)
        ensures
            names_follow(
                old(self)@.get_collection_timestamps(user_id.id32()),
                *final(self),
                stamps,
            ),
    {
        let mut request = self.sql(
            "SELECT collection, last_modified FROM user_collections WHERE userid=@userid",
        )?;
        request.set("userid", natural_text(user_id.as_u32() as u64));
        let result = self.execute(request)?;
        let modifieds = collect_stamps(&result.rows)?;
        self.map_collection_names(modifieds)
    }

    /// How many live objects each collection of a user has.
    pub fn get_collection_counts_sync(&mut self, user_id: UserIdentifier) -> (counts: Result<
        Table<String, i64>,
        Stop,
    >)
        ensures
            names_follow(old(self)@.get_collection_counts(user_id.id32()), *final(self), counts),
    {
        let mut request = self.sql(
            "SELECT collection, COUNT(collection) FROM bso WHERE userid=@userid AND ttl > CURRENT_TIMESTAMP() GROUP BY collection",
        )?;
        request.set("userid", natural_text(user_id.as_u32() as u64));
        let result = self.execute(request)?;
        let counts = collect_numbers(&result.rows)?;
        self.map_collection_names(counts)
    }

    /// How much payload the live objects of each collection of a user hold.
    pub fn get_collection_usage_sync(&mut self, user_id: UserIdentifier) -> (usages: Result<
        Table<String, i64>,
        Stop,
    >)
        ensures
            names_follow(old(self)@.get_collection_usage(user_id.id32()), *final(self), usages),
    {
        let mut request = self.sql(
            "SELECT collection, SUM(LENGTH(payload)) FROM bso WHERE userid=@userid AND ttl > CURRENT_TIMESTAMP() GROUP BY collection",
        )?;
        request.set("userid", natural_text(user_id.as_u32() as u64));
        let result = self.execute(request)?;
        let usages = collect_numbers(&result.rows)?;
        self.map_collection_names(usages)
    }
}

/// One more element of a sequence is one more element of its set.
proof fn lemma_take_to_set(s: Seq<i32>, i: int)
    requires
        0 <= i < s.len(),
    ensures
        s.take(i + 1).to_set() == s.take(i).to_set().insert(s[i]),
{
    assert(s.take(i + 1) =~= s.take(i).push(s[i]));
    lemma_push_to_set(s.take(i), s[i]);
}

proof fn lemma_push_to_set(s: Seq<i32>, x: i32)
    ensures
        s.push(x).to_set() == s.to_set().insert(x),
{
    let t = s.push(x);
    assert forall|y: i32| t.contains(y) <==> s.contains(y) || y == x by {
        assert(t[s.len() as int] == x);
        if s.contains(y) {
            let j = choose|j: int| 0 <= j < s.len() && s[j] == y;
            assert(t[j] == y);
        }
    }
    assert(t.to_set() =~= s.to_set().insert(x));
}

} // verus!
