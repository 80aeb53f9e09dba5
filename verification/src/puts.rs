//! Which statements write objects, and what they say.

use vstd::prelude::*;

use crate::conn::{RequestView, ResultSetView, RowView, SpannerType, SqlView};
use crate::db::{DbView, Step};
use crate::decimal::{decimal, decimal_value, law_decimal_round_trip, natural, read_i32};
use crate::error::StopView;
use crate::params::PutBso;
use crate::results::BsoView;
use crate::statements::{asked, has_text, heard, known, law_statement, too_many, unwritable};
use crate::stored::{law_get_bso, legible, readable, row_of, same_row};
use crate::text::{
    agrees_to, has, lacks, lacks_to, lemma_has_before, lemma_has_behind, lemma_has_itself,
    lemma_lacks, lemma_lacks_both, lemma_pair_of_part, lemma_short_lacks, lemma_stands_at,
};
use crate::timestamp::{rfc3339_instant, rfc3339_text};
use crate::write::{comma_separated, PutView};

verus! {

/// The assignments of an update of an object of which something is given.
pub open spec fn assigned(bso: PutView) -> Seq<char> {
    match (bso.sortindex is Some, bso.ttl is Some, bso.payload is Some) {
        (true, true, true) => "sortindex = @sortindex"@ + ", "@ + "ttl = @expiry"@ + ", "@
            + "modified = @modified"@ + ", "@ + "payload = @payload"@,
        (true, true, false) => "sortindex = @sortindex"@ + ", "@ + "ttl = @expiry"@ + ", "@
            + "modified = @modified"@,
        (true, false, true) => "sortindex = @sortindex"@ + ", "@ + "modified = @modified"@ + ", "@
            + "payload = @payload"@,
        (true, false, false) => "sortindex = @sortindex"@ + ", "@ + "modified = @modified"@,
        (false, true, true) => "ttl = @expiry"@ + ", "@ + "modified = @modified"@ + ", "@
            + "payload = @payload"@,
        (false, true, false) => "ttl = @expiry"@,
        (false, false, _) => "modified = @modified"@ + ", "@ + "payload = @payload"@,
    }
}

/// The text of an update.
proof fn lemma_update_text(bso: PutView)
    requires
        bso.sortindex is Some || bso.ttl is Some || bso.payload is Some,
    ensures
        bso.assignments().len() > 0,
        bso.update_sql() == "UPDATE bso SET "@ + assigned(bso) + " WHERE userid = @userid AND collection = @collectionid AND id = @bsoid"@,
{
    reveal_with_fuel(comma_separated, 5);
    let a = "sortindex = @sortindex"@;
    let b = "ttl = @expiry"@;
    let c = "modified = @modified"@;
    let d = "payload = @payload"@;
    let parts = bso.assignments();
    match (bso.sortindex is Some, bso.ttl is Some, bso.payload is Some) {
        (true, true, true) => {
            assert(parts =~= seq![a, b, c, d]);
            assert(parts.drop_last() =~= seq![a, b, c]);
            assert(seq![a, b, c].drop_last() =~= seq![a, b]);
            assert(seq![a, b].drop_last() =~= seq![a]);
        },
        (true, true, false) => {
            assert(parts =~= seq![a, b, c]);
            assert(parts.drop_last() =~= seq![a, b]);
            assert(seq![a, b].drop_last() =~= seq![a]);
        },
        (true, false, true) => {
            assert(parts =~= seq![a, c, d]);
            assert(parts.drop_last() =~= seq![a, c]);
            assert(seq![a, c].drop_last() =~= seq![a]);
        },
        (true, false, false) => {
            assert(parts =~= seq![a, c]);
            assert(parts.drop_last() =~= seq![a]);
        },
        (false, true, true) => {
            assert(parts =~= seq![b, c, d]);
            assert(parts.drop_last() =~= seq![b, c]);
            assert(seq![b, c].drop_last() =~= seq![b]);
        },
        (false, true, false) => {
            assert(parts =~= seq![b]);
        },
        (false, false, _) => {
            assert(parts =~= seq![c, d]);
            assert(parts.drop_last() =~= seq![c]);
        },
    }
}

/// The storage once it was looked whether the object is there.
pub open spec fn looked_at(db: DbView, user: u64, id: i32, bso: Seq<char>) -> DbView {
    asked(
        db,
        "SELECT 1 as count FROM bso WHERE userid = @userid AND collection = @collectionid AND id = @bsoid"@,
        row_of(natural(user as nat), id, bso),
        Map::empty(),
    )
}

/// When what is written now ceases to live.
pub open spec fn expiry_of(bso: PutView, now: int) -> int {
    match bso.ttl {
        Some(ttl) => now + ttl * 1000,
        None => now + 2_100_000_000_000,
    }
}

/// An object is not put in a collection that cannot be touched.
pub proof fn law_put_touches(db: DbView, user: u64, name: Seq<char>, id: i32, bso: PutView)
    requires
        known(db, name, id),
        db.touch_collection(user as u32, id).out is Err,
    ensures
        db.put_bso(user, name, bso) == db.touch_collection(user as u32, id),
{
}

/// To put an object in a collection touches the collection and looks whether the object is
/// there.
pub proof fn law_put_looks(
    db: DbView,
    user: u64,
    name: Seq<char>,
    id: i32,
    bso: PutView,
    touched: DbView,
    found: ResultSetView,
)
    requires
        known(db, name, id),
        db.touch_collection(user as u32, id) == (Step {
            db: touched,
            out: Ok::<int, StopView>(db.timestamp),
        }),
        heard(touched) == Some(found),
    ensures
        found.rows.len() > 1 ==> db.put_bso(user, name, bso) == (Step {
            db: looked_at(touched, user, id, bso.id),
            out: Err::<int, StopView>(too_many()),
        }),
        found.rows.len() == 1 && bso.sortindex is None && bso.ttl is None && bso.payload is None
            ==> db.put_bso(user, name, bso) == (Step {
            db: looked_at(touched, user, id, bso.id),
            out: Ok::<int, StopView>(db.timestamp),
        }),
{
    law_statement(
        touched,
        "SELECT 1 as count FROM bso WHERE userid = @userid AND collection = @collectionid AND id = @bsoid"@,
        row_of(natural(user as nat), id, bso.id),
        Map::empty(),
        found,
    );
}

/// An object that is not there is inserted: with its id, its payload, which is `DEFAULT` where
/// none is given, its sort index where one is given, the session's time and the time at which it
/// ceases to live.
pub proof fn law_put_inserts(
    db: DbView,
    user: u64,
    name: Seq<char>,
    id: i32,
    bso: PutView,
    touched: DbView,
    found: ResultSetView,
)
    requires
        known(db, name, id),
        has_text(db.timestamp),
        touched.timestamp == db.timestamp,
        db.touch_collection(user as u32, id) == (Step {
            db: touched,
            out: Ok::<int, StopView>(db.timestamp),
        }),
        heard(touched) == Some(found),
        found.rows.len() == 0,
    ensures
        ({
            let after = db.put_bso(user, name, bso);
            let looked = looked_at(touched, user, id, bso.id);
            let row = row_of(natural(user as nat), id, bso.id);
            let payload = match bso.payload {
                Some(payload) => payload,
                None => "DEFAULT"@,
            };
            let now = rfc3339_text(db.timestamp as i64);
            let expiry = rfc3339_text(expiry_of(bso, db.timestamp) as i64);
            &&& !has_text(expiry_of(bso, db.timestamp)) ==> after == (Step {
                db: looked,
                out: Err::<int, StopView>(unwritable(expiry_of(bso, db.timestamp))),
            })
            &&& has_text(expiry_of(bso, db.timestamp)) && heard(looked) is Some ==> {
                &&& after.out == Ok::<int, StopView>(db.timestamp)
                &&& bso.sortindex matches Some(sortindex) ==> after.db == asked(
                    looked,
                    "INSERT INTO bso (userid, collection, id, sortindex, payload, modified, ttl) VALUES (@userid, @collectionid, @bsoid, @sortindex, @payload, @modified, @expiry)"@,
                    row.insert("sortindex"@, decimal(sortindex as int)).insert(
                        "payload"@,
                        payload,
                    ).insert("expiry"@, expiry).insert("modified"@, now),
                    Map::empty().insert("sortindex"@, SpannerType::Int64).insert(
                        "expiry"@,
                        SpannerType::Timestamp,
                    ).insert("modified"@, SpannerType::Timestamp),
                )
                &&& bso.sortindex is None ==> after.db == asked(
                    looked,
                    "INSERT INTO bso (userid, collection, id, payload, modified, ttl) VALUES (@userid, @collectionid, @bsoid,  @payload, @modified, @expiry)"@,
                    row.insert("payload"@, payload).insert("expiry"@, expiry).insert(
                        "modified"@,
                        now,
                    ),
                    Map::empty().insert("expiry"@, SpannerType::Timestamp).insert(
                        "modified"@,
                        SpannerType::Timestamp,
                    ),
                )
            }
        }),
{
    let row = row_of(natural(user as nat), id, bso.id);
    law_statement(
        touched,
        "SELECT 1 as count FROM bso WHERE userid = @userid AND collection = @collectionid AND id = @bsoid"@,
        row,
        Map::empty(),
        found,
    );
    let looked = looked_at(touched, user, id, bso.id);
    let payload = match bso.payload {
        Some(payload) => payload,
        None => "DEFAULT"@,
    };
    let now = rfc3339_text(db.timestamp as i64);
    let expiry = rfc3339_text(expiry_of(bso, db.timestamp) as i64);
    if heard(looked) is Some {
        match bso.sortindex {
            Some(sortindex) => {
                law_statement(
                    looked,
                    "INSERT INTO bso (userid, collection, id, sortindex, payload, modified, ttl) VALUES (@userid, @collectionid, @bsoid, @sortindex, @payload, @modified, @expiry)"@,
                    row.insert("sortindex"@, decimal(sortindex as int)).insert(
                        "payload"@,
                        payload,
                    ).insert("expiry"@, expiry).insert("modified"@, now),
                    Map::empty().insert("sortindex"@, SpannerType::Int64).insert(
                        "expiry"@,
                        SpannerType::Timestamp,
                    ).insert("modified"@, SpannerType::Timestamp),
                    heard(looked)->Some_0,
                );
            },
            None => {
                law_statement(
                    looked,
                    "INSERT INTO bso (userid, collection, id, payload, modified, ttl) VALUES (@userid, @collectionid, @bsoid,  @payload, @modified, @expiry)"@,
                    row.insert("payload"@, payload).insert("expiry"@, expiry).insert(
                        "modified"@,
                        now,
                    ),
                    Map::empty().insert("expiry"@, SpannerType::Timestamp).insert(
                        "modified"@,
                        SpannerType::Timestamp,
                    ),
                    heard(looked)->Some_0,
                );
            },
        }
    }
}

/// The parameters of an update: the row, and what is given of the object.
pub open spec fn update_params(
    row: Map<Seq<char>, Seq<char>>,
    bso: PutView,
    now: int,
) -> Map<Seq<char>, Seq<char>> {
    let first = match bso.sortindex {
        Some(sortindex) => row.insert("sortindex"@, decimal(sortindex as int)),
        None => row,
    };
    let second = match bso.ttl {
        Some(ttl) => first.insert("expiry"@, rfc3339_text((now + ttl * 1000) as i64)),
        None => first,
    };
    let third = if bso.payload is Some || bso.sortindex is Some {
        second.insert("modified"@, rfc3339_text(now as i64))
    } else {
        second
    };
    match bso.payload {
        Some(payload) => third.insert("payload"@, payload),
        None => third,
    }
}

/// The types of the parameters of an update.
pub open spec fn update_types(bso: PutView) -> Map<Seq<char>, SpannerType> {
    let first = match bso.sortindex {
        Some(_) => Map::empty().insert("sortindex"@, SpannerType::Int64),
        None => Map::empty(),
    };
    let second = match bso.ttl {
        Some(_) => first.insert("expiry"@, SpannerType::Timestamp),
        None => first,
    };
    if bso.payload is Some || bso.sortindex is Some {
        second.insert("modified"@, SpannerType::Timestamp)
    } else {
        second
    }
}

/// An object that is there is updated by one statement, which sets what is given of it.
pub proof fn law_put_updates(
    db: DbView,
    user: u64,
    name: Seq<char>,
    id: i32,
    bso: PutView,
    touched: DbView,
    found: ResultSetView,
)
    requires
        known(db, name, id),
        has_text(db.timestamp),
        touched.timestamp == db.timestamp,
        db.touch_collection(user as u32, id) == (Step {
            db: touched,
            out: Ok::<int, StopView>(db.timestamp),
        }),
        heard(touched) == Some(found),
        found.rows.len() == 1,
        bso.sortindex is Some || bso.ttl is Some || bso.payload is Some,
    ensures
        ({
            let after = db.put_bso(user, name, bso);
            let looked = looked_at(touched, user, id, bso.id);
            let writable = bso.ttl is Some ==> has_text(expiry_of(bso, db.timestamp));
            &&& !writable ==> after == (Step {
                db: looked,
                out: Err::<int, StopView>(unwritable(expiry_of(bso, db.timestamp))),
            })
            &&& writable && heard(looked) is Some ==> after == (Step {
                db: asked(
                    looked,
                    "UPDATE bso SET "@ + assigned(bso)
                        + " WHERE userid = @userid AND collection = @collectionid AND id = @bsoid"@,
                    update_params(row_of(natural(user as nat), id, bso.id), bso, db.timestamp),
                    update_types(bso),
                ),
                out: Ok::<int, StopView>(db.timestamp),
            })
        }),
{
    let row = row_of(natural(user as nat), id, bso.id);
    law_statement(
        touched,
        "SELECT 1 as count FROM bso WHERE userid = @userid AND collection = @collectionid AND id = @bsoid"@,
        row,
        Map::empty(),
        found,
    );
    lemma_update_text(bso);
    let looked = looked_at(touched, user, id, bso.id);
    if heard(looked) is Some {
        law_statement(
            looked,
            bso.update_sql(),
            update_params(row, bso, db.timestamp),
            update_types(bso),
            heard(looked)->Some_0,
        );
        let writable = bso.ttl is Some ==> has_text(expiry_of(bso, db.timestamp));
        if writable {
            let request = looked.collection_sql(bso.update_sql(), natural(user as nat), id);
            lemma_bound(
                request.out->Ok_0,
                bso,
                natural(user as nat),
                id,
                db.timestamp,
                looked.sql(bso.update_sql()).out->Ok_0,
            );
        }
    }
}

proof fn lemma_bound(
    request: SqlView,
    bso: PutView,
    userid: Seq<char>,
    id: i32,
    now: int,
    bare: SqlView,
)
    requires
        bare.params == Map::<Seq<char>, Seq<char>>::empty(),
        bare.param_types == Map::<Seq<char>, SpannerType>::empty(),
        request == bare.with("userid"@, userid).with("collectionid"@, decimal(id as int)),
    ensures
        bso.bind_update(
            request,
            rfc3339_text(now as i64),
            match bso.ttl {
                Some(ttl) => Some(rfc3339_text((now + ttl * 1000) as i64)),
                None => None,
            },
        ) == (SqlView {
            params: update_params(row_of(userid, id, bso.id), bso, now),
            param_types: update_types(bso),
            ..request
        }),
{
}

/// The characters of the texts that make an update.
proof fn lemma_text_head()
    ensures
        lacks("UPDATE bso SET "@, '@', 's'),
        lacks("UPDATE bso SET "@, '@', 'e'),
        lacks("UPDATE bso SET "@, '@', 'm'),
        lacks("UPDATE bso SET "@, '@', 'p'),
        "UPDATE bso SET "@.len() == 15,
        "UPDATE bso SET "@.last() != '@',
{
    reveal_strlit("UPDATE bso SET ");
    let text = "UPDATE bso SET "@;
    reveal_with_fuel(lacks_to, 26);
    assert(lacks_to(text, '@', 's', 15));
    lemma_lacks(text, '@', 's', 15);
    assert(lacks_to(text, '@', 'e', 15));
    lemma_lacks(text, '@', 'e', 15);
    assert(lacks_to(text, '@', 'm', 15));
    lemma_lacks(text, '@', 'm', 15);
    assert(lacks_to(text, '@', 'p', 15));
    lemma_lacks(text, '@', 'p', 15);
}

proof fn lemma_text_sortindex()
    ensures
        lacks("sortindex = @sortindex"@, '@', 'e'),
        lacks("sortindex = @sortindex"@, '@', 'm'),
        lacks("sortindex = @sortindex"@, '@', 'p'),
        "sortindex = @sortindex"@.len() == 22,
        "sortindex = @sortindex"@.last() != '@',
        "sortindex = @sortindex"@[12] == '@',
        "sortindex = @sortindex"@[13] == 's',
{
    reveal_strlit("sortindex = @sortindex");
    let text = "sortindex = @sortindex"@;
    reveal_with_fuel(lacks_to, 26);
    assert(lacks_to(text, '@', 'e', 22));
    lemma_lacks(text, '@', 'e', 22);
    assert(lacks_to(text, '@', 'm', 22));
    lemma_lacks(text, '@', 'm', 22);
    assert(lacks_to(text, '@', 'p', 22));
    lemma_lacks(text, '@', 'p', 22);
}

proof fn lemma_text_comma()
    ensures
        lacks(", "@, '@', 's'),
        lacks(", "@, '@', 'e'),
        lacks(", "@, '@', 'm'),
        lacks(", "@, '@', 'p'),
        ", "@.len() == 2,
        ", "@.last() != '@',
{
    reveal_strlit(", ");
    let text = ", "@;
    reveal_with_fuel(lacks_to, 26);
    assert(lacks_to(text, '@', 's', 2));
    lemma_lacks(text, '@', 's', 2);
    assert(lacks_to(text, '@', 'e', 2));
    lemma_lacks(text, '@', 'e', 2);
    assert(lacks_to(text, '@', 'm', 2));
    lemma_lacks(text, '@', 'm', 2);
    assert(lacks_to(text, '@', 'p', 2));
    lemma_lacks(text, '@', 'p', 2);
}

proof fn lemma_text_ttl()
    ensures
        lacks("ttl = @expiry"@, '@', 's'),
        lacks("ttl = @expiry"@, '@', 'm'),
        lacks("ttl = @expiry"@, '@', 'p'),
        "ttl = @expiry"@.len() == 13,
        "ttl = @expiry"@.last() != '@',
        "ttl = @expiry"@[6] == '@',
        "ttl = @expiry"@[7] == 'e',
{
    reveal_strlit("ttl = @expiry");
    let text = "ttl = @expiry"@;
    reveal_with_fuel(lacks_to, 26);
    assert(lacks_to(text, '@', 's', 13));
    lemma_lacks(text, '@', 's', 13);
    assert(lacks_to(text, '@', 'm', 13));
    lemma_lacks(text, '@', 'm', 13);
    assert(lacks_to(text, '@', 'p', 13));
    lemma_lacks(text, '@', 'p', 13);
}

proof fn lemma_text_modified()
    ensures
        lacks("modified = @modified"@, '@', 's'),
        lacks("modified = @modified"@, '@', 'e'),
        lacks("modified = @modified"@, '@', 'p'),
        "modified = @modified"@.len() == 20,
        "modified = @modified"@.last() != '@',
        "modified = @modified"@[11] == '@',
        "modified = @modified"@[12] == 'm',
{
    reveal_strlit("modified = @modified");
    let text = "modified = @modified"@;
    reveal_with_fuel(lacks_to, 26);
    assert(lacks_to(text, '@', 's', 20));
    lemma_lacks(text, '@', 's', 20);
    assert(lacks_to(text, '@', 'e', 20));
    lemma_lacks(text, '@', 'e', 20);
    assert(lacks_to(text, '@', 'p', 20));
    lemma_lacks(text, '@', 'p', 20);
}

proof fn lemma_text_payload()
    ensures
        lacks("payload = @payload"@, '@', 's'),
        lacks("payload = @payload"@, '@', 'e'),
        lacks("payload = @payload"@, '@', 'm'),
        "payload = @payload"@.len() == 18,
        "payload = @payload"@.last() != '@',
        "payload = @payload"@[10] == '@',
        "payload = @payload"@[11] == 'p',
{
    reveal_strlit("payload = @payload");
    let text = "payload = @payload"@;
    reveal_with_fuel(lacks_to, 26);
    assert(lacks_to(text, '@', 's', 18));
    lemma_lacks(text, '@', 's', 18);
    assert(lacks_to(text, '@', 'e', 18));
    lemma_lacks(text, '@', 'e', 18);
    assert(lacks_to(text, '@', 'm', 18));
    lemma_lacks(text, '@', 'm', 18);
}

proof fn lemma_text_tail()
    ensures
        lacks(" WHERE userid = @userid AND collection = @collectionid AND id = @bsoid"@, '@', 's'),
        lacks(" WHERE userid = @userid AND collection = @collectionid AND id = @bsoid"@, '@', 'e'),
        lacks(" WHERE userid = @userid AND collection = @collectionid AND id = @bsoid"@, '@', 'm'),
        lacks(" WHERE userid = @userid AND collection = @collectionid AND id = @bsoid"@, '@', 'p'),
        " WHERE userid = @userid AND collection = @collectionid AND id = @bsoid"@.len() == 70,
        " WHERE userid = @userid AND collection = @collectionid AND id = @bsoid"@.last() != '@',
{
    reveal_strlit(" WHERE userid = @userid AND collection = @collectionid AND id = @bsoid");
    let text = " WHERE userid = @userid AND collection = @collectionid AND id = @bsoid"@;
    reveal_with_fuel(lacks_to, 26);
    assert(lacks_to(text, '@', 's', 25));
    assert(lacks_to(text, '@', 's', 50));
    assert(lacks_to(text, '@', 's', 70));
    lemma_lacks(text, '@', 's', 70);
    assert(lacks_to(text, '@', 'e', 25));
    assert(lacks_to(text, '@', 'e', 50));
    assert(lacks_to(text, '@', 'e', 70));
    lemma_lacks(text, '@', 'e', 70);
    assert(lacks_to(text, '@', 'm', 25));
    assert(lacks_to(text, '@', 'm', 50));
    assert(lacks_to(text, '@', 'm', 70));
    lemma_lacks(text, '@', 'm', 70);
    assert(lacks_to(text, '@', 'p', 25));
    assert(lacks_to(text, '@', 'p', 50));
    assert(lacks_to(text, '@', 'p', 70));
    lemma_lacks(text, '@', 'p', 70);
}

/// Texts without a pair lack it also when they are joined by commas.
proof fn lemma_joined_lacks(parts: Seq<Seq<char>>, c: char)
    requires
        lacks(", "@, '@', c),
        ", "@.len() == 2,
        ", "@.last() != '@',
        forall|i: int|
            0 <= i < parts.len() ==> lacks(#[trigger] parts[i], '@', c) && parts[i].len() > 0
                && parts[i].last() != '@',
    ensures
        lacks(comma_separated(parts), '@', c),
        parts.len() > 0 ==> comma_separated(parts).len() > 0 && comma_separated(parts).last()
            != '@',
    decreases parts.len(),
{
    if parts.len() == 0 {
        lemma_short_lacks(comma_separated(parts), '@', c);
    } else if parts.len() > 1 {
        let fewer = parts.drop_last();
        assert forall|i: int| 0 <= i < fewer.len() implies lacks(#[trigger] fewer[i], '@', c)
            && fewer[i].len() > 0 && fewer[i].last() != '@' by {
            assert(fewer[i] == parts[i]);
        }
        lemma_joined_lacks(fewer, c);
        lemma_lacks_both(comma_separated(fewer), ", "@, '@', c);
        assert((comma_separated(fewer) + ", "@).last() == ", "@.last());
        assert(lacks(parts[parts.len() - 1], '@', c));
        lemma_lacks_both(comma_separated(fewer) + ", "@, parts.last(), '@', c);
        assert(comma_separated(parts).last() == parts.last().last());
    } else {
        assert(lacks(parts[0], '@', c));
    }
}

/// Each of the texts that are joined by commas stands in the whole.
proof fn lemma_joined_has(parts: Seq<Seq<char>>, i: int)
    requires
        0 <= i < parts.len(),
    ensures
        has(comma_separated(parts), parts[i]),
    decreases parts.len(),
{
    if parts.len() == 1 {
        lemma_has_itself(parts[0]);
    } else if i == parts.len() - 1 {
        lemma_has_itself(parts.last());
        lemma_has_behind(comma_separated(parts.drop_last()) + ", "@, parts.last(), parts.last());
    } else {
        let fewer = parts.drop_last();
        lemma_joined_has(fewer, i);
        lemma_has_before(comma_separated(fewer), ", "@, parts[i]);
        lemma_has_before(comma_separated(fewer) + ", "@, parts.last(), parts[i]);
    }
}

/// An assignment that is not among those of an update does not stand in its text.
proof fn lemma_not_assigned(bso: PutView, part: Seq<char>, at: int)
    requires
        bso.assignments().len() > 0,
        0 <= at,
        at + 1 < part.len(),
        part[at] == '@',
        forall|i: int|
            0 <= i < bso.assignments().len() ==> lacks(
                #[trigger] bso.assignments()[i],
                '@',
                part[at + 1],
            ) && bso.assignments()[i].len() > 0 && bso.assignments()[i].last() != '@',
        part[at + 1] == 's' || part[at + 1] == 'e' || part[at + 1] == 'm' || part[at + 1] == 'p',
    ensures
        !(has(bso.update_sql(), part)),
        !(has(comma_separated(bso.assignments()), part)),
{
    lemma_text_head();
    lemma_text_comma();
    lemma_text_tail();
    let c = part[at + 1];
    let joined = comma_separated(bso.assignments());
    lemma_joined_lacks(bso.assignments(), c);
    lemma_lacks_both("UPDATE bso SET "@, joined, '@', c);
    assert(("UPDATE bso SET "@ + joined).last() == joined.last());
    lemma_lacks_both(
        "UPDATE bso SET "@ + joined,
        " WHERE userid = @userid AND collection = @collectionid AND id = @bsoid"@,
        '@',
        c,
    );
    if has(bso.update_sql(), part) {
        lemma_pair_of_part(bso.update_sql(), part, at);
    }
    if has(joined, part) {
        lemma_pair_of_part(joined, part, at);
    }
}

/// An assignment that is among those of an update stands in its text.
proof fn lemma_is_assigned(bso: PutView, i: int)
    requires
        0 <= i < bso.assignments().len(),
    ensures
        has(bso.update_sql(), bso.assignments()[i]),
        has(comma_separated(bso.assignments()), bso.assignments()[i]),
{
    let part = bso.assignments()[i];
    let joined = comma_separated(bso.assignments());
    lemma_joined_has(bso.assignments(), i);
    lemma_has_behind("UPDATE bso SET "@, joined, part);
    lemma_has_before(
        "UPDATE bso SET "@ + joined,
        " WHERE userid = @userid AND collection = @collectionid AND id = @bsoid"@,
        part,
    );
}

/// The text sets what is given of the object.
spec fn sets_given(text: Seq<char>, bso: PutView) -> bool {
    &&& has(text, "payload = @payload"@) <==> bso.payload is Some
    &&& has(text, "sortindex = @sortindex"@) <==> bso.sortindex is Some
    &&& has(text, "ttl = @expiry"@) <==> bso.ttl is Some
    &&& has(text, "modified = @modified"@) <==> bso.payload is Some || bso.sortindex is Some
}

/// Each assignment of an update is one of what is given.
proof fn lemma_assignments(bso: PutView)
    ensures
        forall|i: int|
            0 <= i < bso.assignments().len() ==> ({
                ||| (#[trigger] bso.assignments()[i]) == "sortindex = @sortindex"@
                    && bso.sortindex is Some
                ||| bso.assignments()[i] == "ttl = @expiry"@ && bso.ttl is Some
                ||| bso.assignments()[i] == "modified = @modified"@ && (bso.payload is Some
                    || bso.sortindex is Some)
                ||| bso.assignments()[i] == "payload = @payload"@ && bso.payload is Some
            }),
{
}

proof fn lemma_sets_sortindex(bso: PutView)
    requires
        bso.sortindex is Some || bso.ttl is Some || bso.payload is Some,
    ensures
        has(bso.update_sql(), "sortindex = @sortindex"@) <==> bso.sortindex is Some,
        has(comma_separated(bso.assignments()), "sortindex = @sortindex"@) <==> bso.sortindex is Some,
{
    if bso.sortindex is Some {
        assert(bso.assignments()[0] == "sortindex = @sortindex"@);
        lemma_is_assigned(bso, 0);
    } else {
        lemma_text_sortindex();
        lemma_text_ttl();
        lemma_text_modified();
        lemma_text_payload();
        lemma_assignments(bso);
        lemma_not_assigned(bso, "sortindex = @sortindex"@, 12);
    }
}

proof fn lemma_sets_ttl(bso: PutView)
    requires
        bso.sortindex is Some || bso.ttl is Some || bso.payload is Some,
    ensures
        has(bso.update_sql(), "ttl = @expiry"@) <==> bso.ttl is Some,
        has(comma_separated(bso.assignments()), "ttl = @expiry"@) <==> bso.ttl is Some,
{
    if bso.ttl is Some {
        let n: int = if bso.sortindex is Some {
            1
        } else {
            0
        };
        assert(bso.assignments()[n] == "ttl = @expiry"@);
        lemma_is_assigned(bso, n);
    } else {
        lemma_text_sortindex();
        lemma_text_ttl();
        lemma_text_modified();
        lemma_text_payload();
        lemma_assignments(bso);
        lemma_not_assigned(bso, "ttl = @expiry"@, 6);
    }
}

proof fn lemma_sets_modified(bso: PutView)
    requires
        bso.sortindex is Some || bso.ttl is Some || bso.payload is Some,
    ensures
        has(bso.update_sql(), "modified = @modified"@) <==> bso.payload is Some || bso.sortindex is Some,
        has(comma_separated(bso.assignments()), "modified = @modified"@) <==> bso.payload is Some || bso.sortindex is Some,
{
    if bso.payload is Some || bso.sortindex is Some {
        let n: int = if bso.sortindex is Some {
            1
        } else {
            0
        };
        let m: int = if bso.ttl is Some {
            n + 1
        } else {
            n
        };
        assert(bso.assignments()[m] == "modified = @modified"@);
        lemma_is_assigned(bso, m);
    } else {
        lemma_text_sortindex();
        lemma_text_ttl();
        lemma_text_modified();
        lemma_text_payload();
        lemma_assignments(bso);
        lemma_not_assigned(bso, "modified = @modified"@, 11);
    }
}

proof fn lemma_sets_payload(bso: PutView)
    requires
        bso.sortindex is Some || bso.ttl is Some || bso.payload is Some,
    ensures
        has(bso.update_sql(), "payload = @payload"@) <==> bso.payload is Some,
        has(comma_separated(bso.assignments()), "payload = @payload"@) <==> bso.payload is Some,
{
    if bso.payload is Some {
        let n: int = if bso.sortindex is Some {
            1
        } else {
            0
        };
        let m: int = if bso.ttl is Some {
            n + 1
        } else {
            n
        };
        assert(bso.assignments()[m + 1] == "payload = @payload"@);
        lemma_is_assigned(bso, m + 1);
    } else {
        lemma_text_sortindex();
        lemma_text_ttl();
        lemma_text_modified();
        lemma_text_payload();
        lemma_assignments(bso);
        lemma_not_assigned(bso, "payload = @payload"@, 10);
    }
}

proof fn lemma_assigned_text(bso: PutView)
    requires
        bso.sortindex is Some || bso.ttl is Some || bso.payload is Some,
    ensures
        sets_given(bso.update_sql(), bso),
        sets_given(comma_separated(bso.assignments()), bso),
{
    lemma_sets_sortindex(bso);
    lemma_sets_ttl(bso);
    lemma_sets_modified(bso);
    lemma_sets_payload(bso);
}

/// An update sets a part of the object exactly where that part is given, and its time exactly
/// where the payload or the sort index is.
pub proof fn law_update_text(bso: PutView)
    requires
        bso.sortindex is Some || bso.ttl is Some || bso.payload is Some,
    ensures
        has(bso.update_sql(), "payload = @payload"@) <==> bso.payload is Some,
        has(bso.update_sql(), "sortindex = @sortindex"@) <==> bso.sortindex is Some,
        has(bso.update_sql(), "ttl = @expiry"@) <==> bso.ttl is Some,
        has(bso.update_sql(), "modified = @modified"@) <==> bso.payload is Some
            || bso.sortindex is Some,
{
    lemma_assigned_text(bso);
}

/// The text of the assignments that an object makes sets exactly what is given of it, and is
/// empty exactly where nothing is; the statement that updates the object has that text between
/// its head and the row that it names.
pub proof fn law_assignments_call(params: PutBso, text: String, sql: String)
    requires
        call_ensures(PutBso::assignments, (&params,), text),
        call_ensures(PutBso::update_sql, (&params,), sql),
    ensures
        has(text@, "payload = @payload"@) <==> params.payload is Some,
        has(text@, "sortindex = @sortindex"@) <==> params.sortindex is Some,
        has(text@, "ttl = @expiry"@) <==> params.ttl is Some,
        has(text@, "modified = @modified"@) <==> params.payload is Some || params.sortindex is Some,
        text@.len() == 0 <==> params.payload is None && params.sortindex is None && params.ttl
            is None,
        sql@ == "UPDATE bso SET "@ + text@
            + " WHERE userid = @userid AND collection = @collectionid AND id = @bsoid"@,
{
    let bso = params.bso();
    if bso.sortindex is Some || bso.ttl is Some || bso.payload is Some {
        lemma_assigned_text(bso);
        lemma_update_text(bso);
    } else {
        assert(text@ =~= Seq::empty());
        lemma_text_sortindex();
        lemma_text_ttl();
        lemma_text_modified();
        lemma_text_payload();
    }
}

/// The statement that inserts an object has a sort index exactly where one is given.
pub proof fn law_insertion_call(params: PutBso, sql: String)
    requires
        call_ensures(PutBso::insert_sql, (&params,), sql),
    ensures
        params.sortindex is Some ==> sql@
            == "INSERT INTO bso (userid, collection, id, sortindex, payload, modified, ttl) VALUES (@userid, @collectionid, @bsoid, @sortindex, @payload, @modified, @expiry)"@,
        params.sortindex is None ==> sql@
            == "INSERT INTO bso (userid, collection, id, payload, modified, ttl) VALUES (@userid, @collectionid, @bsoid,  @payload, @modified, @expiry)"@,
{
}

/// A row of an object after an update, as the text of the update has it: a column that the text
/// sets stands for the parameter that the text names for it, and the others are as they were.
pub open spec fn set_by(row: RowView, before: RowView, sent: SqlView) -> bool {
    &&& row.len() == 5
    &&& row[0] == before[0]
    &&& rfc3339_instant(row[1]) == rfc3339_instant(
        if has(sent.sql, "modified = @modified"@) {
            sent.params["modified"@]
        } else {
            before[1]
        },
    )
    &&& row[2] == (if has(sent.sql, "payload = @payload"@) {
        sent.params["payload"@]
    } else {
        before[2]
    })
    &&& decimal_value(row[3]) == decimal_value(
        if has(sent.sql, "sortindex = @sortindex"@) {
            sent.params["sortindex"@]
        } else {
            before[3]
        },
    )
    &&& rfc3339_instant(row[4]) == rfc3339_instant(
        if has(sent.sql, "ttl = @expiry"@) {
            sent.params["expiry"@]
        } else {
            before[4]
        },
    )
}

/// An update of an object names the row by the user, the collection and the id. It has a
/// parameter for exactly those columns that its text sets, and its text sets exactly what is
/// given of the object, and the time of the object where its payload or its sort index is.
pub proof fn law_put_sets_what_is_given(
    db: DbView,
    user: u64,
    name: Seq<char>,
    id: i32,
    bso: PutView,
    touched: DbView,
    found: ResultSetView,
)
    requires
        known(db, name, id),
        has_text(db.timestamp),
        touched.timestamp == db.timestamp,
        db.touch_collection(user as u32, id) == (Step {
            db: touched,
            out: Ok::<int, StopView>(db.timestamp),
        }),
        heard(touched) == Some(found),
        found.rows.len() == 1,
        bso.sortindex is Some || bso.ttl is Some || bso.payload is Some,
        bso.ttl is Some ==> has_text(expiry_of(bso, db.timestamp)),
        heard(looked_at(touched, user, id, bso.id)) is Some,
    ensures
        db.put_bso(user, name, bso).db.conn.sent.last() matches RequestView::Execute(sent) && {
            &&& has(sent.sql, "payload = @payload"@) <==> bso.payload is Some
            &&& has(sent.sql, "sortindex = @sortindex"@) <==> bso.sortindex is Some
            &&& has(sent.sql, "ttl = @expiry"@) <==> bso.ttl is Some
            &&& has(sent.sql, "modified = @modified"@) <==> bso.payload is Some
                || bso.sortindex is Some
            &&& sent.params.contains_key("payload"@) <==> has(sent.sql, "payload = @payload"@)
            &&& sent.params.contains_key("sortindex"@) <==> has(
                sent.sql,
                "sortindex = @sortindex"@,
            )
            &&& sent.params.contains_key("expiry"@) <==> has(sent.sql, "ttl = @expiry"@)
            &&& sent.params.contains_key("modified"@) <==> has(sent.sql, "modified = @modified"@)
            &&& sent.params["userid"@] == natural(user as nat)
            &&& sent.params["collectionid"@] == decimal(id as int)
            &&& sent.params["bsoid"@] == bso.id
            &&& bso.payload matches Some(payload) ==> sent.params["payload"@] == payload
            &&& bso.sortindex matches Some(sortindex) ==> sent.params["sortindex"@] == decimal(
                sortindex as int,
            )
            &&& bso.ttl matches Some(ttl) ==> sent.params["expiry"@] == rfc3339_text(
                (db.timestamp + ttl * 1000) as i64,
            )
            &&& bso.payload is Some || bso.sortindex is Some ==> sent.params["modified"@]
                == rfc3339_text(db.timestamp as i64)
        },
{
    law_put_updates(db, user, name, id, bso, touched, found);
    lemma_update_text(bso);
    law_update_text(bso);
    lemma_names_differ();
}

/// The names of parameters are different.
pub proof fn lemma_names_differ()
    ensures
        "userid"@ != "collectionid"@ && "userid"@ != "bsoid"@ && "userid"@ != "sortindex"@
            && "userid"@ != "expiry"@ && "userid"@ != "modified"@ && "userid"@ != "payload"@,
        "collectionid"@ != "bsoid"@ && "collectionid"@ != "sortindex"@ && "collectionid"@
            != "expiry"@ && "collectionid"@ != "modified"@ && "collectionid"@ != "payload"@,
        "bsoid"@ != "sortindex"@ && "bsoid"@ != "expiry"@ && "bsoid"@ != "modified"@ && "bsoid"@
            != "payload"@,
        "sortindex"@ != "expiry"@ && "sortindex"@ != "modified"@ && "sortindex"@ != "payload"@,
        "expiry"@ != "modified"@ && "expiry"@ != "payload"@ && "modified"@ != "payload"@,
{
    reveal_strlit("userid");
    reveal_strlit("collectionid");
    reveal_strlit("bsoid");
    reveal_strlit("sortindex");
    reveal_strlit("expiry");
    reveal_strlit("modified");
    reveal_strlit("payload");
    assert("userid"@[0] == 'u');
    assert("expiry"@[0] == 'e');
    assert("payload"@[0] == 'p');
    assert("modified"@[0] == 'm');
    assert("collectionid"@[0] == 'c');
    assert("bsoid"@[0] == 'b');
    assert("sortindex"@[0] == 's');
}

/// What a read gives back of a write: after an update of an object, a session that finds the
/// row as the text of the update has it gets the object with the parts that were given as they
/// were given and the others as they were, modified at the time of the update where its payload
/// or its sort index was given.
pub proof fn law_get_after_update(
    db: DbView,
    user: u64,
    name: Seq<char>,
    id: i32,
    bso: PutView,
    touched: DbView,
    found: ResultSetView,
    later: DbView,
    before: RowView,
    result: ResultSetView,
)
    requires
        known(db, name, id),
        has_text(db.timestamp),
        touched.timestamp == db.timestamp,
        db.touch_collection(user as u32, id) == (Step {
            db: touched,
            out: Ok::<int, StopView>(db.timestamp),
        }),
        heard(touched) == Some(found),
        found.rows.len() == 1,
        bso.sortindex is Some || bso.ttl is Some || bso.payload is Some,
        bso.ttl is Some ==> has_text(expiry_of(bso, db.timestamp)),
        heard(looked_at(touched, user, id, bso.id)) is Some,
        readable(db.timestamp),
        bso.ttl is Some ==> readable(expiry_of(bso, db.timestamp)),
        known(later, name, id),
        has_text(later.timestamp),
        heard(later) == Some(result),
        result.rows.len() == 1,
        legible(before),
        before[0] == bso.id,
        db.put_bso(user, name, bso).db.conn.sent.last() matches RequestView::Execute(sent)
            && set_by(result.rows[0], before, sent),
    ensures
        later.get_bso(user, name, bso.id).out == Ok::<Option<BsoView>, StopView>(
            Some(
                BsoView {
                    id: bso.id,
                    modified: if bso.payload is Some || bso.sortindex is Some {
                        db.timestamp
                    } else {
                        rfc3339_instant(before[1])->Ok_0 as int
                    },
                    payload: match bso.payload {
                        Some(payload) => payload,
                        None => before[2],
                    },
                    sortindex: match bso.sortindex {
                        Some(sortindex) => Some(sortindex),
                        None => Some(read_i32(before[3])->Ok_0),
                    },
                    expiry: match bso.ttl {
                        Some(ttl) => (db.timestamp + ttl * 1000) as i64,
                        None => rfc3339_instant(before[4])->Ok_0,
                    },
                },
            ),
        ),
{
    law_put_sets_what_is_given(db, user, name, id, bso, touched, found);
    law_get_bso(later, user, name, id, bso.id, result);
    if let Some(sortindex) = bso.sortindex {
        law_decimal_round_trip(sortindex as int);
    }
}

/// What is written of an object is written to the row that getting the object asks for.
pub proof fn law_get_is_of_the_put(
    db: DbView,
    user: u64,
    name: Seq<char>,
    id: i32,
    bso: PutView,
    touched: DbView,
    found: ResultSetView,
    later: DbView,
    result: ResultSetView,
)
    requires
        known(db, name, id),
        has_text(db.timestamp),
        touched.timestamp == db.timestamp,
        db.touch_collection(user as u32, id) == (Step {
            db: touched,
            out: Ok::<int, StopView>(db.timestamp),
        }),
        heard(touched) == Some(found),
        found.rows.len() <= 1,
        has_text(expiry_of(bso, db.timestamp)),
        heard(looked_at(touched, user, id, bso.id)) is Some,
        known(later, name, id),
        has_text(later.timestamp),
        heard(later) == Some(result),
    ensures
        match (
            db.put_bso(user, name, bso).db.conn.sent.last(),
            later.get_bso(user, name, bso.id).db.conn.sent.last(),
        ) {
            (RequestView::Execute(put), RequestView::Execute(get)) => same_row(put, get),
            _ => false,
        },
{
    lemma_names_differ();
    reveal_strlit("timestamp");
    reveal_strlit("userid");
    reveal_strlit("collectionid");
    reveal_strlit("bsoid");
    assert("timestamp"@[0] == 't');
    assert("userid"@[0] == 'u' && "collectionid"@[0] == 'c' && "bsoid"@[0] == 'b');
    law_get_bso(later, user, name, id, bso.id, result);
    if found.rows.len() == 0 {
        law_put_inserts(db, user, name, id, bso, touched, found);
    } else if bso.sortindex is Some || bso.ttl is Some || bso.payload is Some {
        law_put_updates(db, user, name, id, bso, touched, found);
    } else {
        law_put_looks(db, user, name, id, bso, touched, found);
    }
}

/// A row of an object that holds the values of an insertion's parameters in the columns that the
/// insertion names. A sort index that is not inserted is read as 0.
pub open spec fn made_by(row: RowView, sent: SqlView) -> bool {
    &&& row.len() == 5
    &&& row[0] == sent.params["bsoid"@]
    &&& rfc3339_instant(row[1]) == rfc3339_instant(sent.params["modified"@])
    &&& row[2] == sent.params["payload"@]
    &&& decimal_value(row[3]) == (if has(sent.sql, "@sortindex"@) {
        decimal_value(sent.params["sortindex"@])
    } else {
        Some(0int)
    })
    &&& rfc3339_instant(row[4]) == rfc3339_instant(sent.params["expiry"@])
}

/// What a read gives back of a write: after an object was inserted, a session that finds the row
/// as the insertion has it gets the object as it was given, modified at the time of the
/// insertion; one without a payload has `DEFAULT`, and one without a sort index has 0.
pub proof fn law_get_after_insertion(
    db: DbView,
    user: u64,
    name: Seq<char>,
    id: i32,
    bso: PutView,
    touched: DbView,
    found: ResultSetView,
    later: DbView,
    result: ResultSetView,
)
    requires
        known(db, name, id),
        has_text(db.timestamp),
        touched.timestamp == db.timestamp,
        db.touch_collection(user as u32, id) == (Step {
            db: touched,
            out: Ok::<int, StopView>(db.timestamp),
        }),
        heard(touched) == Some(found),
        found.rows.len() == 0,
        has_text(expiry_of(bso, db.timestamp)),
        heard(looked_at(touched, user, id, bso.id)) is Some,
        readable(db.timestamp),
        readable(expiry_of(bso, db.timestamp)),
        known(later, name, id),
        has_text(later.timestamp),
        heard(later) == Some(result),
        result.rows.len() == 1,
        db.put_bso(user, name, bso).db.conn.sent.last() matches RequestView::Execute(sent)
            && made_by(result.rows[0], sent),
    ensures
        later.get_bso(user, name, bso.id).out == Ok::<Option<BsoView>, StopView>(
            Some(
                BsoView {
                    id: bso.id,
                    modified: db.timestamp,
                    payload: match bso.payload {
                        Some(payload) => payload,
                        None => "DEFAULT"@,
                    },
                    sortindex: match bso.sortindex {
                        Some(sortindex) => Some(sortindex),
                        None => Some(0),
                    },
                    expiry: match bso.ttl {
                        Some(ttl) => (db.timestamp + ttl * 1000) as i64,
                        None => (db.timestamp + 2_100_000_000_000) as i64,
                    },
                },
            ),
        ),
{
    law_put_inserts(db, user, name, id, bso, touched, found);
    law_get_bso(later, user, name, id, bso.id, result);
    lemma_names_differ();
    lemma_insertions();
    if let Some(sortindex) = bso.sortindex {
        law_decimal_round_trip(sortindex as int);
    }
}

/// Of the two insertions one has a sort index.
proof fn lemma_insertions()
    ensures
        has(
            "INSERT INTO bso (userid, collection, id, sortindex, payload, modified, ttl) VALUES (@userid, @collectionid, @bsoid, @sortindex, @payload, @modified, @expiry)"@,
            "@sortindex"@,
        ),
        !(has(
            "INSERT INTO bso (userid, collection, id, payload, modified, ttl) VALUES (@userid, @collectionid, @bsoid,  @payload, @modified, @expiry)"@,
            "@sortindex"@,
        )),
{
    reveal_strlit("@sortindex");
    reveal_strlit(
        "INSERT INTO bso (userid, collection, id, sortindex, payload, modified, ttl) VALUES (@userid, @collectionid, @bsoid, @sortindex, @payload, @modified, @expiry)",
    );
    reveal_strlit(
        "INSERT INTO bso (userid, collection, id, payload, modified, ttl) VALUES (@userid, @collectionid, @bsoid,  @payload, @modified, @expiry)",
    );
    let long = "INSERT INTO bso (userid, collection, id, sortindex, payload, modified, ttl) VALUES (@userid, @collectionid, @bsoid, @sortindex, @payload, @modified, @expiry)"@;
    let short = "INSERT INTO bso (userid, collection, id, payload, modified, ttl) VALUES (@userid, @collectionid, @bsoid,  @payload, @modified, @expiry)"@;
    reveal_with_fuel(agrees_to, 11);
    assert(agrees_to(long, "@sortindex"@, 116, 10));
    lemma_stands_at(long, "@sortindex"@, 116);
    reveal_with_fuel(lacks_to, 26);
    assert(lacks_to(short, '@', 's', 25));
    assert(lacks_to(short, '@', 's', 50));
    assert(lacks_to(short, '@', 's', 75));
    assert(lacks_to(short, '@', 's', 100));
    assert(lacks_to(short, '@', 's', 125));
    assert(lacks_to(short, '@', 's', 135));
    lemma_lacks(short, '@', 's', 135);
    if has(short, "@sortindex"@) {
        lemma_pair_of_part(short, "@sortindex"@, 0);
    }
}

} // verus!
