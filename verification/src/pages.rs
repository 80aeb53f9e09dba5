//! What holds of queries for objects: their parameters, and the pages that they come in.

use vstd::prelude::*;

use crate::conn::{SpannerType, SqlView};
use crate::db::DbView;
use crate::decimal::{decimal, law_decimal_injective, natural};
use crate::error::{ErrorView, StopView};
use crate::read::{time_param, with_ids, written, QueryView};
use crate::results::{BsoView, PageView};
use crate::timestamp::text_of;

verus! {

/// The name of the parameter for the id of that index.
pub open spec fn id_param(i: nat) -> Seq<char> {
    "arg"@ + natural(i)
}

/// The parameters for two ids have different names.
pub proof fn lemma_id_params(i: nat, j: nat)
    requires
        i != j,
    ensures
        id_param(i) != id_param(j),
{
    if id_param(i) == id_param(j) {
        assert(id_param(i).skip("arg"@.len() as int) =~= natural(i));
        assert(id_param(j).skip("arg"@.len() as int) =~= natural(j));
        law_decimal_injective(i as int, j as int);
    }
}

/// Each id is the value of its own parameter, and what has no such name is left alone.
pub proof fn law_ids_are_bound(request: SqlView, ids: Seq<Seq<char>>)
    ensures
        forall|i: nat|
            #![trigger id_param(i)]
            i < ids.len() ==> with_ids(request, ids).params.contains_key(id_param(i))
                && with_ids(request, ids).params[id_param(i)] == ids[i as int],
        forall|name: Seq<char>|
            #![trigger with_ids(request, ids).params.contains_key(name)]
            #![trigger with_ids(request, ids).params[name]]
            (forall|i: nat| i < ids.len() ==> name != #[trigger] id_param(i)) ==> {
                &&& with_ids(request, ids).params.contains_key(name)
                    == request.params.contains_key(name)
                &&& with_ids(request, ids).params[name] == request.params[name]
            },
        with_ids(request, ids).param_types == request.param_types,
        with_ids(request, ids).sql == request.sql,
        with_ids(request, ids).transaction == request.transaction,
        with_ids(request, ids).seqno == request.seqno,
    decreases ids.len(),
{
    if ids.len() > 0 {
        let before = ids.drop_last();
        let last = (ids.len() - 1) as nat;
        law_ids_are_bound(request, before);
        assert forall|i: nat| #![trigger id_param(i)] i < ids.len() implies with_ids(
            request,
            ids,
        ).params.contains_key(id_param(i)) && with_ids(request, ids).params[id_param(i)]
            == ids[i as int] by {
            if i < last {
                lemma_id_params(i, last);
                assert(with_ids(request, before).params.contains_key(id_param(i)));
                assert(before[i as int] == ids[i as int]);
            }
        }
        assert forall|name: Seq<char>|
            (forall|i: nat| i < ids.len() ==> name != #[trigger] id_param(i)) implies {
            &&& #[trigger] with_ids(request, ids).params.contains_key(name)
                == request.params.contains_key(name)
            &&& with_ids(request, ids).params[name] == request.params[name]
        } by {
            assert(name != id_param(last));
            assert(with_ids(request, before).params.contains_key(name)
                == request.params.contains_key(name));
        }
    }
}

/// Each parameter of a query holds what the query asks for, and its times are declared as such.
pub proof fn law_query_parameters(
    query: QueryView,
    request: SqlView,
    user: i32,
    id: i32,
    now: Seq<char>,
)
    requires
        query.in_range(),
    ensures
        ({
            let sent = query.bind_all(request, user, id, now);
            &&& sent.sql == request.sql
            &&& sent.params["userid"@] == decimal(user as int)
            &&& sent.params["collectionid"@] == decimal(id as int)
            &&& sent.params["timestamp"@] == now
            &&& sent.param_types["timestamp"@] == SpannerType::Timestamp
            &&& query.older matches Some(older) ==> {
                &&& text_of(older) == Ok::<Seq<char>, ErrorView>(sent.params["older"@])
                &&& sent.param_types["older"@] == SpannerType::Timestamp
            }
            &&& query.newer matches Some(newer) ==> {
                &&& text_of(newer) == Ok::<Seq<char>, ErrorView>(sent.params["newer"@])
                &&& sent.param_types["newer"@] == SpannerType::Timestamp
            }
            &&& forall|i: nat|
                #![trigger id_param(i)]
                i < query.ids.len() ==> sent.params[id_param(i)] == query.ids[i as int]
        }),
{
    let first = request.with("userid"@, decimal(user as int)).with(
        "collectionid"@,
        decimal(id as int),
    ).with("timestamp"@, now).typed("timestamp"@, SpannerType::Timestamp);
    let second = time_param(
        time_param(first, "older"@, written(query.older)),
        "newer"@,
        written(query.newer),
    );
    let sent = query.bind_all(request, user, id, now);
    law_ids_are_bound(second, query.ids);
    reveal_strlit("userid");
    reveal_strlit("collectionid");
    reveal_strlit("timestamp");
    reveal_strlit("older");
    reveal_strlit("newer");
    reveal_strlit("arg");
    assert("older"@ != "newer"@) by {
        assert("older"@[0] != "newer"@[0]);
    }
    assert("userid"@.len() == 6 && "collectionid"@.len() == 12 && "timestamp"@.len() == 9);
    assert("older"@.len() == 5 && "newer"@.len() == 5);
    assert forall|i: nat| (#[trigger] id_param(i))[0] == 'a' by {}
    assert(sent.params["userid"@] == second.params["userid"@]);
    assert(sent.params["collectionid"@] == second.params["collectionid"@]);
    assert(sent.params["timestamp"@] == second.params["timestamp"@]);
    assert(sent.params["older"@] == second.params["older"@]);
    assert(sent.params["newer"@] == second.params["newer"@]);
}

impl QueryView {
    /// The query for the page that starts there.
    pub open spec fn from_start(self, start: int) -> QueryView {
        QueryView { offset: Some(start as u64), ..self }
    }

    /// What comes back for the query of all objects that it asks for: as many as its limit and
    /// one more, without the first ones.
    pub open spec fn cut(self, all: Seq<BsoView>) -> Seq<BsoView> {
        let rest = all.skip(self.start() as int);
        match self.limit {
            Some(limit) if rest.len() > limit + 1 => rest.take(limit + 1),
            _ => rest,
        }
    }

    /// The objects on all pages, from that of the query on.
    pub open spec fn walk(self, all: Seq<BsoView>) -> Seq<BsoView>
        decreases all.len() - self.start(),
    {
        match self.page(self.cut(all)) {
            Ok(page) => match page.offset {
                Some(next) if self.start() < next <= all.len() && self.from_start(
                    next as int,
                ).start() == next => page.items + self.from_start(next as int).walk(all),
                _ => page.items,
            },
            Err(_) => Seq::empty(),
        }
    }
}

/// A page has no more objects than were asked for, it has them in the order in which they
/// came, and it says where the next one starts exactly where there was one more.
pub proof fn law_page(query: QueryView, rows: Seq<BsoView>, limit: u32)
    requires
        query.limit == Some(limit),
        rows.len() <= limit + 1,
        limit + query.start() <= i64::MAX,
    ensures
        query.page(rows) matches Ok(page) && {
            &&& page.items.len() <= limit
            &&& page.items.is_prefix_of(rows)
            &&& page.offset == (if rows.len() == limit + 1 {
                Some((query.start() + limit) as i64)
            } else {
                None
            })
            &&& page.offset is None ==> page.items == rows
        },
{
}

/// Without a limit there is one page, with everything on it.
pub proof fn law_page_without_limit(query: QueryView, rows: Seq<BsoView>)
    requires
        query.limit is None,
    ensures
        query.page(rows) == Ok::<PageView, StopView>(PageView { items: rows, offset: None }),
{
}

/// Where a page says that there is another, the query for that page gives one that is not empty
/// and whose objects are those that directly follow.
pub proof fn law_next_page_follows(
    db: DbView,
    later: DbView,
    user: i32,
    name: Seq<char>,
    query: QueryView,
    limit: u32,
    all: Seq<BsoView>,
    first: PageView,
    next: i64,
)
    requires
        query.limit == Some(limit),
        limit > 0,
        0 <= query.start() <= all.len() <= i64::MAX,
        db.list(user, name, query).out == Ok::<Seq<BsoView>, StopView>(query.cut(all)),
        db.get_bsos(user, name, query).out == Ok::<PageView, StopView>(first),
        first.offset == Some(next),
        later.list(user, name, query.from_start(next as int)).out == Ok::<
            Seq<BsoView>,
            StopView,
        >(query.from_start(next as int).cut(all)),
    ensures
        next == query.start() + limit,
        next < all.len(),
        first.items == all.subrange(query.start() as int, next as int),
        later.get_bsos(user, name, query.from_start(next as int)).out matches Ok(second) && {
            &&& second.items.len() > 0
            &&& next + second.items.len() <= all.len()
            &&& second.items == all.subrange(next as int, next + second.items.len())
            &&& second.offset is None ==> next + second.items.len() == all.len()
        },
{
    let start = query.start() as int;
    let rest = all.skip(start);
    assert(query.cut(all).len() == limit + 1);
    assert(first.items =~= all.subrange(start, next as int));
    let after = query.from_start(next as int);
    assert(after.start() == next);
    let second = after.page(after.cut(all))->Ok_0;
    assert(after.page(after.cut(all)) is Ok);
    assert(second.items =~= all.subrange(next as int, next + second.items.len()));
}

/// Whoever follows the pages to the last gets every object once, in order.
pub proof fn law_pages_hold_everything(query: QueryView, all: Seq<BsoView>, limit: u32)
    requires
        query.limit == Some(limit),
        limit > 0,
        0 <= query.start() <= all.len(),
        all.len() <= i64::MAX,
    ensures
        query.walk(all) == all.skip(query.start() as int),
    decreases all.len() - query.start(),
{
    let start = query.start() as int;
    let rest = all.skip(start);
    if rest.len() > limit {
        let next = start + limit;
        assert(query.cut(all).len() == limit + 1);
        law_pages_hold_everything(query.from_start(next), all, limit);
        assert(query.cut(all).drop_last() + all.skip(next) =~= rest);
    } else {
        assert(query.cut(all) =~= rest);
    }
}

} // verus!
