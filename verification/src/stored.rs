//! Which statements read and write objects, and what becomes of the objects.

use vstd::prelude::*;

use crate::conn::{RequestView, ResultSetView, RowView, SpannerType, SqlView};
use crate::db::{DbView, Step};
use crate::decimal::{decimal, decimal_value, law_decimal_round_trip, natural, read_i32};
use crate::error::{ErrorView, StopView};
use crate::pages::{id_param, law_ids_are_bound, law_query_parameters, lemma_id_params};
use crate::queries::{law_query_conditions, lists};
use crate::read::{listed_bso, listed_bsos, time_param, written, QueryView};
use crate::results::{BsoView, IdsView, PageView};
use crate::statements::{
    asked, has_text, heard, known, law_statement, time_of, too_many, transaction_of, unwritable,
};
use crate::text::has;
use crate::timestamp::{rfc3339_instant, rfc3339_text};

verus! {

/// The parameters that name a row of an object.
pub open spec fn row_of(userid: Seq<char>, id: i32, bso: Seq<char>) -> Map<Seq<char>, Seq<char>> {
    Map::empty().insert("userid"@, userid).insert("collectionid"@, decimal(id as int)).insert(
        "bsoid"@,
        bso,
    )
}

/// To get an object asks for the live row of that user, of the collection that the name stands
/// for and of that id, at the session's time; the object is what the row holds, and no row is no
/// object.
pub proof fn law_get_bso(
    db: DbView,
    user: u64,
    name: Seq<char>,
    id: i32,
    bso: Seq<char>,
    result: ResultSetView,
)
    requires
        known(db, name, id),
        has_text(db.timestamp),
        heard(db) == Some(result),
    ensures
        ({
            let after = db.get_bso(user, name, bso);
            &&& after.db == asked(
                db,
                "SELECT id, modified, payload, coalesce(sortindex, 0), ttl FROM bso WHERE userid=@userid AND collection=@collectionid AND id=@bsoid AND ttl > @timestamp"@,
                row_of(natural(user as nat), id, bso).insert(
                    "timestamp"@,
                    rfc3339_text(db.timestamp as i64),
                ),
                Map::empty().insert("timestamp"@, SpannerType::Timestamp),
            )
            &&& result.rows.len() == 0 ==> after.out == Ok::<Option<BsoView>, StopView>(None)
            &&& result.rows.len() > 1 ==> after.out == Err::<Option<BsoView>, StopView>(too_many())
            &&& result.rows.len() == 1 && result.rows[0].len() >= 5 ==> {
                let row = result.rows[0];
                after.out == (match time_of(row[1]) {
                    Ok(modified) => match rfc3339_instant(row[4]) {
                        Ok(expiry) => match read_i32(row[3]) {
                            Ok(sortindex) => Ok(
                                Some(
                                    BsoView {
                                        id: row[0],
                                        modified,
                                        payload: row[2],
                                        sortindex: Some(sortindex),
                                        expiry,
                                    },
                                ),
                            ),
                            Err(_) => Err(StopView::Fault),
                        },
                        Err(error) => Err(
                            StopView::Failed(
                                ErrorView::Integrity("Invalid TIMESTAMP "@ + error),
                            ),
                        ),
                    },
                    Err(stop) => Err(stop),
                })
            }
            &&& result.rows.len() == 1 && result.rows[0].len() < 5 ==> after.out is Err
        }),
{
    law_statement(
        db,
        "SELECT id, modified, payload, coalesce(sortindex, 0), ttl FROM bso WHERE userid=@userid AND collection=@collectionid AND id=@bsoid AND ttl > @timestamp"@,
        row_of(natural(user as nat), id, bso).insert(
            "timestamp"@,
            rfc3339_text(db.timestamp as i64),
        ),
        Map::empty().insert("timestamp"@, SpannerType::Timestamp),
        result,
    );
}

/// To ask when an object was modified asks for the row that getting the object asks for; the
/// time is the one in the row, and 0 where there is none.
pub proof fn law_get_bso_timestamp(
    db: DbView,
    user: u32,
    name: Seq<char>,
    id: i32,
    bso: Seq<char>,
    result: ResultSetView,
)
    requires
        known(db, name, id),
        has_text(db.timestamp),
        heard(db) == Some(result),
    ensures
        ({
            let after = db.get_bso_timestamp(user, name, bso);
            &&& after.db == asked(
                db,
                "SELECT modified FROM bso WHERE collection=@collectionid AND userid=@userid AND id=@bsoid AND ttl>@ttl"@,
                row_of(natural(user as nat), id, bso).insert(
                    "ttl"@,
                    rfc3339_text(db.timestamp as i64),
                ),
                Map::empty().insert("ttl"@, SpannerType::Timestamp),
            )
            &&& result.rows.len() == 0 ==> after.out == Ok::<int, StopView>(0)
            &&& result.rows.len() > 1 ==> after.out == Err::<int, StopView>(too_many())
            &&& result.rows.len() == 1 && result.rows[0].len() > 0 ==> after.out == time_of(
                result.rows[0][0],
            )
            &&& result.rows.len() == 1 && result.rows[0].len() == 0 ==> after.out == Err::<
                int,
                StopView,
            >(StopView::Fault)
        }),
{
    law_statement(
        db,
        "SELECT modified FROM bso WHERE collection=@collectionid AND userid=@userid AND id=@bsoid AND ttl>@ttl"@,
        row_of(natural(user as nat), id, bso).insert("ttl"@, rfc3339_text(db.timestamp as i64)),
        Map::empty().insert("ttl"@, SpannerType::Timestamp),
        result,
    );
}

/// Two statements are about the same row of an object.
pub open spec fn same_row(one: SqlView, other: SqlView) -> bool {
    &&& one.params["userid"@] == other.params["userid"@]
    &&& one.params["collectionid"@] == other.params["collectionid"@]
    &&& one.params["bsoid"@] == other.params["bsoid"@]
}

/// To ask when an object was modified is about the row that getting the object is about, at the
/// same time: the row of the given id in the collection whose id the lookup gave.
pub proof fn law_time_is_of_the_object(
    db: DbView,
    user: u32,
    name: Seq<char>,
    id: i32,
    bso: Seq<char>,
    result: ResultSetView,
)
    requires
        known(db, name, id),
        has_text(db.timestamp),
        heard(db) == Some(result),
    ensures
        match (
            db.get_bso(user as u64, name, bso).db.conn.sent.last(),
            db.get_bso_timestamp(user, name, bso).db.conn.sent.last(),
        ) {
            (RequestView::Execute(get), RequestView::Execute(ask)) => {
                &&& same_row(get, ask)
                &&& ask.params["bsoid"@] == bso
                &&& ask.params["collectionid"@] == decimal(id as int)
                &&& ask.params["userid"@] == natural(user as nat)
                &&& ask.params["ttl"@] == rfc3339_text(db.timestamp as i64)
                &&& get.params["timestamp"@] == ask.params["ttl"@]
            },
            _ => false,
        },
{
    law_get_bso(db, user as u64, name, id, bso, result);
    law_get_bso_timestamp(db, user, name, id, bso, result);
    reveal_strlit("userid");
    reveal_strlit("collectionid");
    reveal_strlit("bsoid");
    reveal_strlit("timestamp");
    reveal_strlit("ttl");
    assert("userid"@[0] == 'u' && "collectionid"@[0] == 'c' && "bsoid"@[0] == 'b');
    assert("timestamp"@.len() == 9 && "ttl"@.len() == 3);
    assert("timestamp"@[0] == 't' && "ttl"@[0] == 't');
}

/// What a row of a list says of its object.
pub open spec fn object_of(row: RowView) -> BsoView {
    BsoView {
        id: row[0],
        modified: rfc3339_instant(row[1])->Ok_0 as int,
        payload: row[2],
        sortindex: Some(read_i32(row[3])->Ok_0),
        expiry: rfc3339_instant(row[4])->Ok_0,
    }
}

/// What the rows of a list say of their objects.
pub open spec fn objects_of(rows: Seq<RowView>) -> Seq<BsoView> {
    Seq::new(rows.len(), |i: int| object_of(rows[i]))
}

/// A row of a list that can be read.
pub open spec fn legible(row: RowView) -> bool {
    &&& row.len() >= 5
    &&& rfc3339_instant(row[1]) matches Ok(modified) && modified >= 0
    &&& read_i32(row[3]) is Ok
    &&& rfc3339_instant(row[4]) matches Ok(expiry) && expiry >= 0
}

/// To bind the parameters of a query changes nothing else of the request.
proof fn lemma_bind_keeps(
    query: QueryView,
    request: SqlView,
    user: i32,
    id: i32,
    now: Seq<char>,
)
    ensures
        query.bind_all(request, user, id, now) == (SqlView {
            params: query.bind_all(request, user, id, now).params,
            param_types: query.bind_all(request, user, id, now).param_types,
            ..request
        }),
{
    let first = request.with("userid"@, decimal(user as int)).with(
        "collectionid"@,
        decimal(id as int),
    ).with("timestamp"@, now).typed("timestamp"@, SpannerType::Timestamp);
    law_ids_are_bound(
        time_param(
            time_param(first, "older"@, written(query.older)),
            "newer"@,
            written(query.newer),
        ),
        query.ids,
    );
}

/// A query has a parameter for each id that is given and for each time that is given, and no
/// other of those names.
proof fn lemma_bound_names(
    query: QueryView,
    request: SqlView,
    user: i32,
    id: i32,
    now: Seq<char>,
)
    requires
        request.params == Map::<Seq<char>, Seq<char>>::empty(),
        query.in_range(),
    ensures
        ({
            let sent = query.bind_all(request, user, id, now);
            &&& forall|i: nat|
                #![trigger natural(i)]
                sent.params.contains_key("arg"@ + natural(i)) <==> i < query.ids.len()
            &&& sent.params.contains_key("newer"@) <==> query.newer is Some
            &&& sent.params.contains_key("older"@) <==> query.older is Some
        }),
{
    let first = request.with("userid"@, decimal(user as int)).with(
        "collectionid"@,
        decimal(id as int),
    ).with("timestamp"@, now).typed("timestamp"@, SpannerType::Timestamp);
    let second = time_param(
        time_param(first, "older"@, written(query.older)),
        "newer"@,
        written(query.newer),
    );
    let sent = query.bind_all(request, user, id, now);
    law_ids_are_bound(second, query.ids);
    reveal_strlit("userid");
    reveal_strlit("collectionid");
    reveal_strlit("timestamp");
    reveal_strlit("older");
    reveal_strlit("newer");
    reveal_strlit("arg");
    assert("userid"@[0] == 'u' && "collectionid"@[0] == 'c' && "timestamp"@[0] == 't');
    assert("older"@[0] == 'o' && "newer"@[0] == 'n');
    assert forall|i: nat| (#[trigger] id_param(i))[0] == 'a' by {}
    assert forall|i: nat| #![trigger natural(i)] sent.params.contains_key("arg"@ + natural(i))
        <==> i < query.ids.len() by {
        assert(id_param(i) == "arg"@ + natural(i));
        if i >= query.ids.len() {
            assert forall|j: nat| j < query.ids.len() implies id_param(i) != #[trigger] id_param(
                j,
            ) by {
                lemma_id_params(i, j);
            }
            assert(!second.params.contains_key(id_param(i)));
            assert(sent.params.contains_key(id_param(i)) == second.params.contains_key(
                id_param(i),
            ));
        } else {
            assert(sent.params.contains_key(id_param(i)));
        }
    }
    assert(sent.params.contains_key("older"@) == second.params.contains_key("older"@));
    assert(sent.params.contains_key("newer"@) == second.params.contains_key("newer"@));
}

/// Sixty-four bits as a number with a sign.
pub open spec fn signed(bits: u64) -> int {
    if bits <= i64::MAX {
        bits as int
    } else {
        bits - 0x1_0000_0000_0000_0000
    }
}

pub proof fn lemma_signed(bits: u64)
    ensures
        (bits as i64) as int == signed(bits),
{
    assert((bits as i64) as i128 == (if bits <= 0x7fff_ffff_ffff_ffff {
        bits as i128
    } else {
        (bits as i128 - 0x1_0000_0000_0000_0000i128) as i128
    })) by (bit_vector);
}

/// A list is asked for by one statement, whose parameters hold the user, the collection that the
/// name stands for, the session's time, the times that are given and the ids. It has the objects
/// of all rows in their order. Where there is one more than asked for it is left out, and the
/// next page starts behind those that are not.
pub proof fn law_get_bsos(
    db: DbView,
    user: i32,
    name: Seq<char>,
    id: i32,
    query: QueryView,
    result: ResultSetView,
)
    requires
        known(db, name, id),
        has_text(db.timestamp),
        query.newer matches Some(newer) ==> has_text(newer),
        query.older matches Some(older) ==> has_text(older),
        heard(db) == Some(result),
        forall|i: int| 0 <= i < result.rows.len() ==> legible(#[trigger] result.rows[i]),
    ensures
        db.get_bsos(user, name, query).db.conn.sent.last() matches RequestView::Execute(sent) && {
            &&& db.get_bsos(user, name, query).db == asked(
                db,
                query.sql(),
                sent.params,
                sent.param_types,
            )
            &&& sent.params["userid"@] == decimal(user as int)
            &&& sent.params["collectionid"@] == decimal(id as int)
            &&& sent.params["timestamp"@] == rfc3339_text(db.timestamp as i64)
            &&& query.older matches Some(older) ==> sent.params["older"@] == rfc3339_text(
                older as i64,
            )
            &&& query.newer matches Some(newer) ==> sent.params["newer"@] == rfc3339_text(
                newer as i64,
            )
            &&& forall|i: nat|
                #![trigger natural(i)]
                i < query.ids.len() ==> sent.params["arg"@ + natural(i)] == query.ids[i as int]
            &&& forall|i: nat|
                #![trigger natural(i)]
                sent.params.contains_key("arg"@ + natural(i)) <==> i < query.ids.len()
            &&& sent.params.contains_key("newer"@) <==> query.newer is Some
            &&& sent.params.contains_key("older"@) <==> query.older is Some
        },
        ({
            let all = objects_of(result.rows);
            let start: int = match query.offset {
                Some(offset) => signed(offset),
                None => 0,
            };
            let out = db.get_bsos(user, name, query).out;
            match query.limit {
                Some(limit) => if all.len() > limit {
                    out == (if start + limit <= i64::MAX {
                        Ok(
                            PageView {
                                items: all.take(all.len() - 1),
                                offset: Some((start + limit) as i64),
                            },
                        )
                    } else {
                        Err(StopView::Fault)
                    })
                } else {
                    out == Ok::<PageView, StopView>(PageView { items: all, offset: None })
                },
                None => out == Ok::<PageView, StopView>(PageView { items: all, offset: None }),
            }
        }),
{
    let now = rfc3339_text(db.timestamp as i64);
    let request = SqlView {
        sql: query.sql(),
        transaction: transaction_of(db),
        seqno: natural(db.statements as nat),
        params: Map::empty(),
        param_types: Map::empty(),
    };
    let bound = query.bind_all(request, user, id, now);
    law_statement(db, query.sql(), bound.params, bound.param_types, result);
    lemma_bind_keeps(query, request, user, id, now);
    law_query_parameters(query, request, user, id, now);
    lemma_bound_names(query, request, user, id, now);
    if let Some(offset) = query.offset {
        lemma_signed(offset);
    }
    let rows = result.rows;
    let all = objects_of(rows);
    assert forall|i: int| 0 <= i < rows.len() implies (#[trigger] listed_bso(rows[i])) == Ok::<
        BsoView,
        StopView,
    >(object_of(rows[i])) by {
        assert(legible(rows[i]));
    }
    assert(listed_bsos(rows)->Ok_0 =~= all);
    assert(listed_bsos(rows) == Ok::<Seq<BsoView>, StopView>(all));
    assert(db.list(user, name, query).out == Ok::<Seq<BsoView>, StopView>(all));
    assert(all.len() > 0 ==> all.drop_last() =~= all.take(all.len() - 1));
    let after = db.get_bsos(user, name, query);
    assert(after.db == asked(db, query.sql(), bound.params, bound.param_types));
    assert(after.db.conn.sent.last() == RequestView::Execute(bound));
    assert forall|i: nat| #![trigger natural(i)] i < query.ids.len() implies bound.params["arg"@
        + natural(i)] == query.ids[i as int] by {
        assert(bound.params[id_param(i)] == query.ids[i as int]);
    }
}

/// A row of an object in the database.
pub struct StoredBso {
    pub userid: int,
    pub collection: int,
    pub id: Seq<char>,
    pub modified: int,
    pub expiry: int,
}

/// Whether a statement selects a row: each condition in its text holds of the row, with the
/// parameter that the condition names.
pub open spec fn selects_row(sent: SqlView, row: StoredBso) -> bool {
    &&& has(sent.sql, "userid = @userid"@) ==> decimal_value(sent.params["userid"@]) == Some(
        row.userid,
    )
    &&& has(sent.sql, " AND collection = @collectionid"@) ==> decimal_value(
        sent.params["collectionid"@],
    ) == Some(row.collection)
    &&& has(sent.sql, " AND ttl > @timestamp"@) ==> row.expiry > rfc3339_instant(
        sent.params["timestamp"@],
    )->Ok_0
    &&& has(sent.sql, " AND modified > @newer"@) ==> row.modified > rfc3339_instant(
        sent.params["newer"@],
    )->Ok_0
    &&& has(sent.sql, " AND modified < @older"@) ==> row.modified < rfc3339_instant(
        sent.params["older"@],
    )->Ok_0
    &&& has(sent.sql, " AND id IN ("@) ==> exists|i: nat|
        #![trigger lists(sent.sql, i)]
        lists(sent.sql, i) && sent.params.contains_key("arg"@ + natural(i)) && sent.params["arg"@
            + natural(i)] == row.id
}

/// The text of a time can be read again.
pub open spec fn readable(millis: int) -> bool {
    &&& 0 <= millis <= i64::MAX
    &&& rfc3339_instant(rfc3339_text(millis as i64)) == Ok::<i64, Seq<char>>(millis as i64)
}

/// The rows that a list asks for are exactly the live rows of that user and of the collection
/// that the name stands for, modified after `newer` and before `older` and with an id among the
/// ids, each where it is given.
pub proof fn law_list_selects(
    db: DbView,
    user: i32,
    name: Seq<char>,
    id: i32,
    query: QueryView,
    result: ResultSetView,
    row: StoredBso,
)
    requires
        known(db, name, id),
        has_text(db.timestamp),
        query.newer matches Some(newer) ==> has_text(newer),
        query.older matches Some(older) ==> has_text(older),
        readable(db.timestamp),
        query.newer matches Some(newer) ==> readable(newer),
        query.older matches Some(older) ==> readable(older),
        heard(db) == Some(result),
        forall|i: int| 0 <= i < result.rows.len() ==> legible(#[trigger] result.rows[i]),
    ensures
        db.get_bsos(user, name, query).db.conn.sent.last() matches RequestView::Execute(sent)
            && (selects_row(sent, row) <==> {
            &&& row.userid == user
            &&& row.collection == id
            &&& row.expiry > db.timestamp
            &&& query.newer matches Some(newer) ==> row.modified > newer
            &&& query.older matches Some(older) ==> row.modified < older
            &&& query.ids.len() > 0 ==> query.ids.contains(row.id)
        }),
{
    law_get_bsos(db, user, name, id, query, result);
    law_query_conditions(query);
    law_decimal_round_trip(user as int);
    law_decimal_round_trip(id as int);
    let sent = db.get_bsos(user, name, query).db.conn.sent.last()->Execute_0;
    assert(sent.sql == query.sql());
    if query.ids.len() > 0 {
        if query.ids.contains(row.id) {
            let i = query.ids.index_of(row.id) as nat;
            assert(lists(sent.sql, i));
            assert(sent.params["arg"@ + natural(i)] == row.id);
            assert(sent.params.contains_key("arg"@ + natural(i)));
        }
        if selects_row(sent, row) {
            let i = choose|i: nat|
                #![trigger lists(sent.sql, i)]
                lists(sent.sql, i) && sent.params.contains_key("arg"@ + natural(i))
                    && sent.params["arg"@ + natural(i)] == row.id;
            assert(i < query.ids.len());
            assert(query.ids[i as int] == row.id);
        }
    }
}

/// Nothing is asked of an object at a time that cannot be written, nor of a list with such a
/// time in what is asked for.
pub proof fn law_unwritable_times(
    db: DbView,
    user: u64,
    id32: u32,
    signed: i32,
    name: Seq<char>,
    id: i32,
    bso: Seq<char>,
    query: QueryView,
)
    requires
        known(db, name, id),
        db.transaction is Some,
        db.statements < u64::MAX,
    ensures
        !has_text(db.timestamp) ==> {
            &&& db.get_bso(user, name, bso).out == Err::<Option<BsoView>, StopView>(
                unwritable(db.timestamp),
            )
            &&& db.get_bso_timestamp(id32, name, bso).out == Err::<int, StopView>(
                unwritable(db.timestamp),
            )
            &&& db.get_bsos(signed, name, query).out == Err::<PageView, StopView>(
                unwritable(db.timestamp),
            )
            &&& db.get_bso(user, name, bso).db.conn == db.conn
            &&& db.get_bso_timestamp(id32, name, bso).db.conn == db.conn
            &&& db.get_bsos(signed, name, query).db.conn == db.conn
        },
        has_text(db.timestamp) && ((query.newer matches Some(newer) && !has_text(newer)) || (
        query.older matches Some(older) && !has_text(older))) ==> db.get_bsos(signed, name, query)
            == (Step { db, out: Err::<PageView, StopView>(StopView::Fault) }),
{
}

/// A list with a row that cannot be read is none.
pub proof fn law_illegible_row(
    db: DbView,
    user: i32,
    name: Seq<char>,
    id: i32,
    query: QueryView,
    result: ResultSetView,
    i: int,
)
    requires
        known(db, name, id),
        has_text(db.timestamp),
        query.newer matches Some(newer) ==> has_text(newer),
        query.older matches Some(older) ==> has_text(older),
        heard(db) == Some(result),
        0 <= i < result.rows.len(),
        !legible(result.rows[i]),
    ensures
        db.get_bsos(user, name, query).out == Err::<PageView, StopView>(StopView::Fault),
{
    let now = rfc3339_text(db.timestamp as i64);
    let request = SqlView {
        sql: query.sql(),
        transaction: transaction_of(db),
        seqno: natural(db.statements as nat),
        params: Map::empty(),
        param_types: Map::empty(),
    };
    let bound = query.bind_all(request, user, id, now);
    law_statement(db, query.sql(), bound.params, bound.param_types, result);
    lemma_bind_keeps(query, request, user, id, now);
    assert(listed_bso(result.rows[i]) is Err);
}

/// The ids of a page are those of its objects, in their order; what is sent, and where the next
/// page starts, is the same.
pub proof fn law_get_bso_ids(db: DbView, user: i32, name: Seq<char>, query: QueryView)
    ensures
        db.get_bso_ids(user, name, query).db == db.get_bsos(user, name, query).db,
        match db.get_bsos(user, name, query).out {
            Ok(page) => db.get_bso_ids(user, name, query).out matches Ok(ids) && {
                &&& ids.offset == page.offset
                &&& ids.items.len() == page.items.len()
                &&& forall|i: int|
                    0 <= i < page.items.len() ==> #[trigger] ids.items[i] == page.items[i].id
            },
            Err(stop) => db.get_bso_ids(user, name, query).out == Err::<IdsView, StopView>(stop),
        },
{
}

} // verus!
