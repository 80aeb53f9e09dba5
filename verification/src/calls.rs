//! What a call of an operation does, in terms of what it is called with and what it comes out
//! with.

use vstd::prelude::*;

use crate::cache::CollectionCache;
use crate::conn::Conn;
use crate::db::{DbView, SpannerDb};
use crate::error::{Stop, StopView};
use crate::params;
use crate::params::{
    BsoQueryParams, DeleteBso, DeleteBsos, DeleteCollection, GetBsoTimestamp,
    GetCollectionTimestamp, LockCollection, PostCollectionBso, PutBso, UserIdentifier,
};
use crate::read::QueryView;
use crate::results::{BsoView, GetBso, GetBsoIds, GetBsos, PostBsos};
use crate::table::Table;
use crate::timestamp::SyncTimestamp;
use crate::write::PutView;

verus! {

/// The reason for a stop, as it is seen.
pub open spec fn stops(stop: Stop, seen: StopView) -> bool {
    match stop {
        Stop::Waiting => seen == StopView::Waiting,
        Stop::Failed(error) => seen == StopView::Failed(error@),
        Stop::Fault => seen == StopView::Fault,
    }
}

/// The texts, as they are seen.
pub open spec fn texts(list: Seq<String>, seen: Seq<Seq<char>>) -> bool {
    &&& list.len() == seen.len()
    &&& forall|i: int| 0 <= i < list.len() ==> (#[trigger] list[i])@ == seen[i]
}

/// A text that may be missing, as it is seen.
pub open spec fn text_or_none(text: Option<String>, seen: Option<Seq<char>>) -> bool {
    match text {
        Some(text) => seen == Some(text@),
        None => seen is None,
    }
}

/// A time that may be missing, as it is seen.
pub open spec fn time_or_none(time: Option<SyncTimestamp>, seen: Option<int>) -> bool {
    match time {
        Some(time) => seen == Some(time@),
        None => seen is None,
    }
}

/// An object, as it is seen.
pub open spec fn object(bso: GetBso, seen: BsoView) -> bool {
    &&& seen.id == bso.id@
    &&& seen.modified == bso.modified@
    &&& seen.payload == bso.payload@
    &&& seen.sortindex == bso.sortindex
    &&& seen.expiry == bso.expiry
}

/// What is asked for, as it is seen.
pub open spec fn question(query: BsoQueryParams, seen: QueryView) -> bool {
    &&& time_or_none(query.newer, seen.newer)
    &&& time_or_none(query.older, seen.older)
    &&& seen.sort == query.sort
    &&& seen.limit == query.limit
    &&& seen.offset == query.offset
    &&& texts(query.ids@, seen.ids)
}

/// What is put, as it is seen.
pub open spec fn put(bso: PutBso, seen: PutView) -> bool {
    &&& seen.id == bso.id@
    &&& seen.sortindex == bso.sortindex
    &&& text_or_none(bso.payload, seen.payload)
    &&& seen.ttl == bso.ttl
}

/// What is posted, as it is seen.
pub open spec fn posted(bso: PostCollectionBso, seen: PutView) -> bool {
    &&& seen.id == bso.id@
    &&& seen.sortindex == bso.sortindex
    &&& text_or_none(bso.payload, seen.payload)
    &&& seen.ttl == bso.ttl
}

/// The last 32 bits of a user's id.
proof fn lemma_id32(user_id: UserIdentifier, user: u32)
    requires
        user == user_id.legacy_id % 0x1_0000_0000,
    ensures
        user_id.id32() == user,
{
    let id = user_id.legacy_id;
    assert((id as u32) as u64 == id % 0x1_0000_0000) by (bit_vector);
}

/// The last 32 bits of an id as a number with a sign.
pub open spec fn signed(id: u64) -> int {
    let low = id as int % 0x1_0000_0000;
    if low < 0x8000_0000 {
        low
    } else {
        low - 0x1_0000_0000
    }
}

proof fn lemma_signed(id: u64, user: i32)
    requires
        user == signed(id),
    ensures
        id as i32 == user,
{
    assert(id % 0x1_0000_0000 < 0x8000_0000 ==> (id as i32) as u64 == id % 0x1_0000_0000)
        by (bit_vector);
    assert(id % 0x1_0000_0000 < 0x8000_0000 ==> (id as i32) >= 0) by (bit_vector);
    assert(id % 0x1_0000_0000 >= 0x8000_0000 ==> (id as i32) as i64 == (id % 0x1_0000_0000) as i64
        - 0x1_0000_0000i64) by (bit_vector);
}

proof fn lemma_texts(list: Vec<String>, seen: Seq<Seq<char>>)
    requires
        texts(list@, seen),
    ensures
        list.deep_view() == seen,
{
    assert(list.deep_view() =~= seen);
}

proof fn lemma_question(query: BsoQueryParams, seen: QueryView)
    requires
        question(query, seen),
    ensures
        query@ == seen,
{
    lemma_texts(query.ids, seen.ids);
}

/// To ask when a collection was modified is about that user, by the last 32 bits of the id, and
/// about the collection of that name.
pub proof fn law_get_collection_timestamp_call(
    db: &mut SpannerDb,
    params: GetCollectionTimestamp,
    user: u32,
    result: Result<SyncTimestamp, Stop>,
)
    requires
        call_ensures(SpannerDb::get_collection_timestamp_sync, (db, params), result),
        user == params.user_id.legacy_id % 0x1_0000_0000,
    ensures
        ({
            let step = old(db)@.get_collection_timestamp(user, params.collection@);
            &&& final(db)@ == step.db
            &&& match result {
                Ok(value) => step.out == Ok::<int, StopView>(value@),
                Err(stop) => step.out matches Err(seen) && stops(stop, seen),
            }
        }),
{
    lemma_id32(params.user_id, user);
}

/// To lock for reading locks the collection of that name for that user.
pub proof fn law_lock_for_read_call(
    db: &mut SpannerDb,
    params: LockCollection,
    user: u32,
    result: Result<(), Stop>,
)
    requires
        call_ensures(SpannerDb::lock_for_read_sync, (db, params), result),
        user == params.user_id.legacy_id % 0x1_0000_0000,
    ensures
        ({
            let step = old(db)@.lock_for_read(user, params.collection@);
            &&& final(db)@ == step.db
            &&& match result {
                Ok(_) => step.out == Ok::<(), StopView>(()),
                Err(stop) => step.out matches Err(seen) && stops(stop, seen),
            }
        }),
{
    lemma_id32(params.user_id, user);
}

/// To lock for writing locks the collection of that name for that user.
pub proof fn law_lock_for_write_call(
    db: &mut SpannerDb,
    params: LockCollection,
    user: u32,
    result: Result<(), Stop>,
)
    requires
        call_ensures(SpannerDb::lock_for_write_sync, (db, params), result),
        user == params.user_id.legacy_id % 0x1_0000_0000,
    ensures
        ({
            let step = old(db)@.lock_for_write(user, params.collection@);
            &&& final(db)@ == step.db
            &&& match result {
                Ok(_) => step.out == Ok::<(), StopView>(()),
                Err(stop) => step.out matches Err(seen) && stops(stop, seen),
            }
        }),
{
    lemma_id32(params.user_id, user);
}

/// To ask when a storage was modified is about that user's.
pub proof fn law_get_storage_timestamp_call(
    db: &mut SpannerDb,
    user_id: UserIdentifier,
    user: u32,
    result: Result<SyncTimestamp, Stop>,
)
    requires
        call_ensures(SpannerDb::get_storage_timestamp_sync, (db, user_id), result),
        user == user_id.legacy_id % 0x1_0000_0000,
    ensures
        ({
            let step = old(db)@.get_storage_timestamp(user);
            &&& final(db)@ == step.db
            &&& match result {
                Ok(value) => step.out == Ok::<int, StopView>(value@),
                Err(stop) => step.out matches Err(seen) && stops(stop, seen),
            }
        }),
{
    lemma_id32(user_id, user);
}

/// To ask how much payload a storage holds is about that user's.
pub proof fn law_get_storage_usage_call(
    db: &mut SpannerDb,
    user_id: UserIdentifier,
    user: u32,
    result: Result<u64, Stop>,
)
    requires
        call_ensures(SpannerDb::get_storage_usage_sync, (db, user_id), result),
        user == user_id.legacy_id % 0x1_0000_0000,
    ensures
        ({
            let step = old(db)@.get_storage_usage(user);
            &&& final(db)@ == step.db
            &&& match result {
                Ok(value) => step.out == Ok::<u64, StopView>(value),
                Err(stop) => step.out matches Err(seen) && stops(stop, seen),
            }
        }),
{
    lemma_id32(user_id, user);
}

/// To delete a storage deletes that user's.
pub proof fn law_delete_storage_call(
    db: &mut SpannerDb,
    user_id: UserIdentifier,
    user: u32,
    result: Result<(), Stop>,
)
    requires
        call_ensures(SpannerDb::delete_storage_sync, (db, user_id), result),
        user == user_id.legacy_id % 0x1_0000_0000,
    ensures
        ({
            let step = old(db)@.delete_storage(user);
            &&& final(db)@ == step.db
            &&& match result {
                Ok(_) => step.out == Ok::<(), StopView>(()),
                Err(stop) => step.out matches Err(seen) && stops(stop, seen),
            }
        }),
{
    lemma_id32(user_id, user);
}

/// To delete a collection deletes the one of that name of that user.
pub proof fn law_delete_collection_call(
    db: &mut SpannerDb,
    params: DeleteCollection,
    user: u32,
    result: Result<SyncTimestamp, Stop>,
)
    requires
        call_ensures(SpannerDb::delete_collection_sync, (db, params), result),
        user == params.user_id.legacy_id % 0x1_0000_0000,
    ensures
        ({
            let step = old(db)@.delete_collection(user, params.collection@);
            &&& final(db)@ == step.db
            &&& match result {
                Ok(value) => step.out == Ok::<int, StopView>(value@),
                Err(stop) => step.out matches Err(seen) && stops(stop, seen),
            }
        }),
{
    lemma_id32(params.user_id, user);
}

/// To delete an object deletes the one of that id in the collection of that name of that user.
pub proof fn law_delete_bso_call(
    db: &mut SpannerDb,
    params: DeleteBso,
    user: u32,
    result: Result<SyncTimestamp, Stop>,
)
    requires
        call_ensures(SpannerDb::delete_bso_sync, (db, params), result),
        user == params.user_id.legacy_id % 0x1_0000_0000,
    ensures
        ({
            let step = old(db)@.delete_bso(user, params.collection@, params.id@);
            &&& final(db)@ == step.db
            &&& match result {
                Ok(value) => step.out == Ok::<int, StopView>(value@),
                Err(stop) => step.out matches Err(seen) && stops(stop, seen),
            }
        }),
{
    lemma_id32(params.user_id, user);
}

/// To delete objects deletes those of these ids in the collection of that name of that user.
pub proof fn law_delete_bsos_call(
    db: &mut SpannerDb,
    params: DeleteBsos,
    user: u32,
    ids: Seq<Seq<char>>,
    result: Result<SyncTimestamp, Stop>,
)
    requires
        call_ensures(SpannerDb::delete_bsos_sync, (db, params), result),
        user == params.user_id.legacy_id % 0x1_0000_0000,
        texts(params.ids@, ids),
    ensures
        ({
            let step = old(db)@.delete_bsos(user, params.collection@, ids);
            &&& final(db)@ == step.db
            &&& match result {
                Ok(value) => step.out == Ok::<int, StopView>(value@),
                Err(stop) => step.out matches Err(seen) && stops(stop, seen),
            }
        }),
{
    lemma_id32(params.user_id, user);
    lemma_texts(params.ids, ids);
}

/// To ask when an object was modified is about the one of that id in the collection of that name
/// of that user.
pub proof fn law_get_bso_timestamp_call(
    db: &mut SpannerDb,
    params: GetBsoTimestamp,
    user: u32,
    result: Result<SyncTimestamp, Stop>,
)
    requires
        call_ensures(SpannerDb::get_bso_timestamp_sync, (db, params), result),
        user == params.user_id.legacy_id % 0x1_0000_0000,
    ensures
        ({
            let step = old(db)@.get_bso_timestamp(user, params.collection@, params.id@);
            &&& final(db)@ == step.db
            &&& match result {
                Ok(value) => step.out == Ok::<int, StopView>(value@),
                Err(stop) => step.out matches Err(seen) && stops(stop, seen),
            }
        }),
{
    lemma_id32(params.user_id, user);
}

/// To get an object gets the one of that id in the collection of that name of that user, with all
/// that it has.
pub proof fn law_get_bso_call(
    db: &mut SpannerDb,
    params: params::GetBso,
    result: Result<Option<GetBso>, Stop>,
)
    requires
        call_ensures(SpannerDb::get_bso_sync, (db, params), result),
    ensures
        ({
            let step = old(db)@.get_bso(params.user_id.legacy_id, params.collection@, params.id@);
            &&& final(db)@ == step.db
            &&& match result {
                Ok(None) => step.out == Ok::<Option<BsoView>, StopView>(None),
                Ok(Some(bso)) => step.out matches Ok(Some(seen)) && object(bso, seen),
                Err(stop) => step.out matches Err(seen) && stops(stop, seen),
            }
        }),
{
}

/// To list objects lists those of the collection of that name of that user that are asked for, in
/// their order and with all that they have.
pub proof fn law_get_bsos_call(
    db: &mut SpannerDb,
    params: params::GetBsos,
    user: i32,
    query: QueryView,
    result: Result<GetBsos, Stop>,
)
    requires
        call_ensures(SpannerDb::get_bsos_sync, (db, params), result),
        user == signed(params.user_id.legacy_id),
        question(params.params, query),
    ensures
        ({
            let step = old(db)@.get_bsos(user, params.collection@, query);
            &&& final(db)@ == step.db
            &&& match result {
                Ok(page) => step.out matches Ok(seen) && {
                    &&& seen.offset == page.offset
                    &&& seen.items.len() == page.items.len()
                    &&& forall|i: int|
                        0 <= i < page.items.len() ==> object(
                            #[trigger] page.items[i],
                            seen.items[i],
                        )
                },
                Err(stop) => step.out matches Err(seen) && stops(stop, seen),
            }
        }),
{
    lemma_question(params.params, query);
    lemma_signed(params.user_id.legacy_id, user);
}

/// To list ids lists those of the objects that are asked for.
pub proof fn law_get_bso_ids_call(
    db: &mut SpannerDb,
    params: params::GetBsos,
    user: i32,
    query: QueryView,
    result: Result<GetBsoIds, Stop>,
)
    requires
        call_ensures(SpannerDb::get_bso_ids_sync, (db, params), result),
        user == signed(params.user_id.legacy_id),
        question(params.params, query),
    ensures
        ({
            let step = old(db)@.get_bso_ids(user, params.collection@, query);
            &&& final(db)@ == step.db
            &&& match result {
                Ok(page) => step.out matches Ok(seen) && seen.offset == page.offset && texts(
                    page.items@,
                    seen.items,
                ),
                Err(stop) => step.out matches Err(seen) && stops(stop, seen),
            }
        }),
{
    lemma_question(params.params, query);
    lemma_signed(params.user_id.legacy_id, user);
}

/// To put an object puts what is given of it in the collection of that name of that user.
pub proof fn law_put_bso_call(
    db: &mut SpannerDb,
    params: PutBso,
    bso: PutView,
    result: Result<SyncTimestamp, Stop>,
)
    requires
        call_ensures(SpannerDb::put_bso_sync, (db, params), result),
        put(params, bso),
    ensures
        ({
            let step = old(db)@.put_bso(params.user_id.legacy_id, params.collection@, bso);
            &&& final(db)@ == step.db
            &&& match result {
                Ok(value) => step.out == Ok::<int, StopView>(value@),
                Err(stop) => step.out matches Err(seen) && stops(stop, seen),
            }
        }),
{
    assert(params.bso() == bso);
}

/// To post objects posts each of them with what is given of it, in their order, in the collection
/// of that name of that user, beside those that had failed before.
pub proof fn law_post_bsos_call(
    db: &mut SpannerDb,
    params: params::PostBsos,
    bsos: Seq<PutView>,
    result: Result<PostBsos, Stop>,
)
    requires
        call_ensures(SpannerDb::post_bsos_sync, (db, params), result),
        bsos.len() == params.bsos.len(),
        forall|i: int| 0 <= i < bsos.len() ==> posted(#[trigger] params.bsos[i], bsos[i]),
    ensures
        ({
            let step = old(db)@.post_bsos(
                params.user_id.legacy_id,
                params.collection@,
                bsos,
                params.failed@,
            );
            &&& final(db)@ == step.db
            &&& match result {
                Ok(report) => step.out matches Ok(seen) && {
                    &&& seen.modified == report.modified@
                    &&& texts(report.success@, seen.success)
                    &&& seen.failed == report.failed@
                },
                Err(stop) => step.out matches Err(seen) && stops(stop, seen),
            }
        }),
{
    assert forall|i: int| 0 <= i < bsos.len() implies params.bsos.deep_view()[i] == bsos[i] by {
        assert(posted(params.bsos[i], bsos[i]));
    }
    assert(params.bsos.deep_view() =~= bsos);
}

/// To ask when the collections of a user were modified is about that user. What comes out has
/// a figure under the name of every collection that has one, and under each name the figure of a
/// collection of that name.
pub proof fn law_get_collection_timestamps_call(
    db: &mut SpannerDb,
    user_id: UserIdentifier,
    user: u32,
    result: Result<Table<String, SyncTimestamp>, Stop>,
)
    requires
        call_ensures(SpannerDb::get_collection_timestamps_sync, (db, user_id), result),
        user == user_id.legacy_id % 0x1_0000_0000,
    ensures
        ({
            let step = old(db)@.get_collection_timestamps(user);
            &&& final(db)@ == step.db
            &&& match result {
                Ok(figures) => step.out matches Ok((by_id, names)) && {
                    &&& forall|id: i32| #[trigger]
                        by_id.contains_key(id) ==> figures@.contains_key(names[id])
                    &&& forall|name: Seq<char>| #[trigger]
                        figures@.contains_key(name) ==> exists|id: i32| #[trigger]
                            by_id.contains_key(id) && names[id] == name && figures@[name]
                                == by_id[id]
                },
                Err(stop) => step.out matches Err(seen) && stops(stop, seen),
            }
        }),
{
    lemma_id32(user_id, user);
}

/// To ask how many objects the collections of a user have is about that user. What comes out has
/// a figure under the name of every collection that has one, and under each name the figure of a
/// collection of that name.
pub proof fn law_get_collection_counts_call(
    db: &mut SpannerDb,
    user_id: UserIdentifier,
    user: u32,
    result: Result<Table<String, i64>, Stop>,
)
    requires
        call_ensures(SpannerDb::get_collection_counts_sync, (db, user_id), result),
        user == user_id.legacy_id % 0x1_0000_0000,
    ensures
        ({
            let step = old(db)@.get_collection_counts(user);
            &&& final(db)@ == step.db
            &&& match result {
                Ok(figures) => step.out matches Ok((by_id, names)) && {
                    &&& forall|id: i32| #[trigger]
                        by_id.contains_key(id) ==> figures@.contains_key(names[id])
                    &&& forall|name: Seq<char>| #[trigger]
                        figures@.contains_key(name) ==> exists|id: i32| #[trigger]
                            by_id.contains_key(id) && names[id] == name && figures@[name]
                                == by_id[id]
                },
                Err(stop) => step.out matches Err(seen) && stops(stop, seen),
            }
        }),
{
    lemma_id32(user_id, user);
}

/// To ask how much payload the collections of a user hold is about that user. What comes out has
/// a figure under the name of every collection that has one, and under each name the figure of a
/// collection of that name.
pub proof fn law_get_collection_usage_call(
    db: &mut SpannerDb,
    user_id: UserIdentifier,
    user: u32,
    result: Result<Table<String, i64>, Stop>,
)
    requires
        call_ensures(SpannerDb::get_collection_usage_sync, (db, user_id), result),
        user == user_id.legacy_id % 0x1_0000_0000,
    ensures
        ({
            let step = old(db)@.get_collection_usage(user);
            &&& final(db)@ == step.db
            &&& match result {
                Ok(figures) => step.out matches Ok((by_id, names)) && {
                    &&& forall|id: i32| #[trigger]
                        by_id.contains_key(id) ==> figures@.contains_key(names[id])
                    &&& forall|name: Seq<char>| #[trigger]
                        figures@.contains_key(name) ==> exists|id: i32| #[trigger]
                            by_id.contains_key(id) && names[id] == name && figures@[name]
                                == by_id[id]
                },
                Err(stop) => step.out matches Err(seen) && stops(stop, seen),
            }
        }),
{
    lemma_id32(user_id, user);
}

/// To look a collection up looks for that name.
pub proof fn law_get_collection_id_call(
    db: &mut SpannerDb,
    name: String,
    result: Result<i32, Stop>,
)
    requires
        call_ensures(SpannerDb::get_collection_id, (db, &name), result),
    ensures
        ({
            let step = old(db)@.get_collection_id(name@);
            &&& final(db)@ == step.db
            &&& match result {
                Ok(id) => step.out == Ok::<i32, StopView>(id),
                Err(stop) => step.out matches Err(seen) && stops(stop, seen),
            }
        }),
{
}

/// To create a collection creates one of that name.
pub proof fn law_create_collection_call(
    db: &mut SpannerDb,
    name: String,
    result: Result<i32, Stop>,
)
    requires
        call_ensures(SpannerDb::create_collection, (db, &name), result),
    ensures
        ({
            let step = old(db)@.create_collection(name@);
            &&& final(db)@ == step.db
            &&& match result {
                Ok(id) => step.out == Ok::<i32, StopView>(id),
                Err(stop) => step.out matches Err(seen) && stops(stop, seen),
            }
        }),
{
}

/// To look a collection up or create it is about that name.
pub proof fn law_get_or_create_collection_id_call(
    db: &mut SpannerDb,
    name: String,
    result: Result<i32, Stop>,
)
    requires
        call_ensures(SpannerDb::get_or_create_collection_id, (db, &name), result),
    ensures
        ({
            let step = old(db)@.get_or_create_collection_id(name@);
            &&& final(db)@ == step.db
            &&& match result {
                Ok(id) => step.out == Ok::<i32, StopView>(id),
                Err(stop) => step.out matches Err(seen) && stops(stop, seen),
            }
        }),
{
}

/// To touch a collection touches the one of that id of that user.
pub proof fn law_touch_collection_call(
    db: &mut SpannerDb,
    user: u32,
    id: i32,
    result: Result<SyncTimestamp, Stop>,
)
    requires
        call_ensures(SpannerDb::touch_collection, (db, user, id), result),
    ensures
        ({
            let step = old(db)@.touch_collection(user, id);
            &&& final(db)@ == step.db
            &&& match result {
                Ok(value) => step.out == Ok::<int, StopView>(value@),
                Err(stop) => step.out matches Err(seen) && stops(stop, seen),
            }
        }),
{
}

/// To begin a transaction begins one for reading or for writing, as it is asked for.
pub proof fn law_begin_call(
    db: &mut SpannerDb,
    for_write: bool,
    result: Result<(), Stop>,
)
    requires
        call_ensures(SpannerDb::begin, (db, for_write), result),
    ensures
        ({
            let step = old(db)@.begin(for_write);
            &&& final(db)@ == step.db
            &&& match result {
                Ok(_) => step.out == Ok::<(), StopView>(()),
                Err(stop) => step.out matches Err(seen) && stops(stop, seen),
            }
        }),
{
}

/// To commit ends the transaction.
pub proof fn law_commit_call(
    db: &mut SpannerDb,
    result: Result<(), Stop>,
)
    requires
        call_ensures(SpannerDb::commit_sync, (db,), result),
    ensures
        ({
            let step = old(db)@.commit();
            &&& final(db)@ == step.db
            &&& match result {
                Ok(_) => step.out == Ok::<(), StopView>(()),
                Err(stop) => step.out matches Err(seen) && stops(stop, seen),
            }
        }),
{
}

/// To roll back ends the transaction.
pub proof fn law_rollback_call(
    db: &mut SpannerDb,
    result: Result<(), Stop>,
)
    requires
        call_ensures(SpannerDb::rollback_sync, (db,), result),
    ensures
        ({
            let step = old(db)@.rollback();
            &&& final(db)@ == step.db
            &&& match result {
                Ok(_) => step.out == Ok::<(), StopView>(()),
                Err(stop) => step.out matches Err(seen) && stops(stop, seen),
            }
        }),
{
}

/// A new session has the connection, the cache and the time that it is made with, and nothing
/// else.
pub proof fn law_new_session(
    conn: Conn,
    cache: CollectionCache,
    timestamp: SyncTimestamp,
    db: SpannerDb,
)
    requires
        call_ensures(SpannerDb::new, (conn, cache, timestamp), db),
    ensures
        db@.conn == conn@,
        db@.cache == cache@,
        db@.timestamp == timestamp@,
        forall|key: (u32, i32)| !(#[trigger] db@.modified.contains_key(key)),
        forall|key: (u32, i32)| !(#[trigger] db@.locks.contains_key(key)),
        db@.transaction is None,
        db@.statements == 0,
{
}

/// The session's time is the one that was set last, and to set it changes nothing else.
pub proof fn law_session_time(
    db: &mut SpannerDb,
    timestamp: SyncTimestamp,
)
    requires
        call_ensures(SpannerDb::set_timestamp, (db, timestamp), ()),
    ensures
        final(db)@ == (DbView { timestamp: timestamp@, ..old(db)@ }),
{
}

/// What a session says of its time is its time.
pub proof fn law_session_time_is_told(db: SpannerDb, timestamp: SyncTimestamp)
    requires
        call_ensures(SpannerDb::timestamp, (&db,), timestamp),
    ensures
        timestamp@ == db@.timestamp,
{
}

/// What is seen of the storage are its parts.
pub proof fn law_storage_is_seen(db: SpannerDb)
    ensures
        db@.conn == db.inner.conn@,
        db@.timestamp == db.inner.session.timestamp@,
        db@.modified == db.inner.session.coll_modified_cache@,
        db@.locks == db.inner.session.coll_locks@,
        match db.inner.session.transaction {
            Some(transaction) => db@.transaction matches Some(id) && text_or_none(
                transaction.id,
                id,
            ),
            None => db@.transaction is None,
        },
        db@.statements == db.inner.session.execute_sql_count,
        db@.cache == db.coll_cache@,
{
}

} // verus!
