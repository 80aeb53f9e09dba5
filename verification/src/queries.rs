//! What a query for objects asks for.

use vstd::prelude::*;

use crate::decimal::{decimal, natural};
use crate::params::Sorting;
use crate::read::{placeholders, QueryView};
use crate::stored::{lemma_signed, signed};
use crate::text::{
    has, lacks, lacks_to, lemma_has_before, lemma_has_behind, lemma_has_itself, lemma_lacks,
    lemma_lacks_both, lemma_number_lacks, lemma_pair_of_part, lemma_short_lacks,
    lemma_stands_at, agrees_to,
};

verus! {

proof fn lemma_part_first()
    ensures
        lacks("SELECT id, modified, payload, COALESCE(sortindex, 0), ttl FROM bso WHERE userid = @userid AND collection = @collectionid AND ttl > @timestamp"@, '@', 'n'),
        lacks("SELECT id, modified, payload, COALESCE(sortindex, 0), ttl FROM bso WHERE userid = @userid AND collection = @collectionid AND ttl > @timestamp"@, '@', 'o'),
        lacks("SELECT id, modified, payload, COALESCE(sortindex, 0), ttl FROM bso WHERE userid = @userid AND collection = @collectionid AND ttl > @timestamp"@, ' ', '('),
        "SELECT id, modified, payload, COALESCE(sortindex, 0), ttl FROM bso WHERE userid = @userid AND collection = @collectionid AND ttl > @timestamp"@.len() == 141,
        "SELECT id, modified, payload, COALESCE(sortindex, 0), ttl FROM bso WHERE userid = @userid AND collection = @collectionid AND ttl > @timestamp"@[0] == 'S',
        "SELECT id, modified, payload, COALESCE(sortindex, 0), ttl FROM bso WHERE userid = @userid AND collection = @collectionid AND ttl > @timestamp"@.last() == 'p',
{
    reveal_strlit(
        "SELECT id, modified, payload, COALESCE(sortindex, 0), ttl FROM bso WHERE userid = @userid AND collection = @collectionid AND ttl > @timestamp",
    );
    let text = "SELECT id, modified, payload, COALESCE(sortindex, 0), ttl FROM bso WHERE userid = @userid AND collection = @collectionid AND ttl > @timestamp"@;
    reveal_with_fuel(lacks_to, 26);
    assert(lacks_to(text, '@', 'n', 25));
    assert(lacks_to(text, '@', 'n', 50));
    assert(lacks_to(text, '@', 'n', 75));
    assert(lacks_to(text, '@', 'n', 100));
    assert(lacks_to(text, '@', 'n', 125));
    assert(lacks_to(text, '@', 'n', 141));
    lemma_lacks(text, '@', 'n', 141);
    assert(lacks_to(text, '@', 'o', 25));
    assert(lacks_to(text, '@', 'o', 50));
    assert(lacks_to(text, '@', 'o', 75));
    assert(lacks_to(text, '@', 'o', 100));
    assert(lacks_to(text, '@', 'o', 125));
    assert(lacks_to(text, '@', 'o', 141));
    lemma_lacks(text, '@', 'o', 141);
    assert(lacks_to(text, ' ', '(', 25));
    assert(lacks_to(text, ' ', '(', 50));
    assert(lacks_to(text, ' ', '(', 75));
    assert(lacks_to(text, ' ', '(', 100));
    assert(lacks_to(text, ' ', '(', 125));
    assert(lacks_to(text, ' ', '(', 141));
    lemma_lacks(text, ' ', '(', 141);
}

proof fn lemma_part_older()
    ensures
        lacks(" AND modified < @older"@, '@', 'n'),
        lacks(" AND modified < @older"@, ' ', '('),
        " AND modified < @older"@.len() == 22,
        " AND modified < @older"@[0] == ' ',
        " AND modified < @older"@.last() == 'r',
{
    reveal_strlit(" AND modified < @older");
    let text = " AND modified < @older"@;
    reveal_with_fuel(lacks_to, 23);
    assert(lacks_to(text, '@', 'n', 22));
    lemma_lacks(text, '@', 'n', 22);
    assert(lacks_to(text, ' ', '(', 22));
    lemma_lacks(text, ' ', '(', 22);
}

proof fn lemma_part_newer()
    ensures
        lacks(" AND modified > @newer"@, '@', 'o'),
        lacks(" AND modified > @newer"@, ' ', '('),
        " AND modified > @newer"@.len() == 22,
        " AND modified > @newer"@[0] == ' ',
        " AND modified > @newer"@.last() == 'r',
{
    reveal_strlit(" AND modified > @newer");
    let text = " AND modified > @newer"@;
    reveal_with_fuel(lacks_to, 23);
    assert(lacks_to(text, '@', 'o', 22));
    lemma_lacks(text, '@', 'o', 22);
    assert(lacks_to(text, ' ', '(', 22));
    lemma_lacks(text, ' ', '(', 22);
}

proof fn lemma_part_in()
    ensures
        lacks(" AND id IN ("@, '@', 'n'),
        lacks(" AND id IN ("@, '@', 'o'),
        " AND id IN ("@.len() == 12,
        " AND id IN ("@[0] == ' ',
        " AND id IN ("@.last() == '(',
{
    reveal_strlit(" AND id IN (");
    let text = " AND id IN ("@;
    reveal_with_fuel(lacks_to, 13);
    assert(lacks_to(text, '@', 'n', 12));
    lemma_lacks(text, '@', 'n', 12);
    assert(lacks_to(text, '@', 'o', 12));
    lemma_lacks(text, '@', 'o', 12);
}

proof fn lemma_part_arg()
    ensures
        lacks("@arg"@, '@', 'n'),
        lacks("@arg"@, '@', 'o'),
        "@arg"@.len() == 4,
        "@arg"@[0] == '@',
        "@arg"@.last() == 'g',
{
    reveal_strlit("@arg");
    let text = "@arg"@;
    reveal_with_fuel(lacks_to, 5);
    assert(lacks_to(text, '@', 'n', 4));
    lemma_lacks(text, '@', 'n', 4);
    assert(lacks_to(text, '@', 'o', 4));
    lemma_lacks(text, '@', 'o', 4);
}

proof fn lemma_part_comma()
    ensures
        lacks(", "@, '@', 'n'),
        lacks(", "@, '@', 'o'),
        ", "@.len() == 2,
        ", "@[0] == ',',
        ", "@.last() == ' ',
{
    reveal_strlit(", ");
    let text = ", "@;
    reveal_with_fuel(lacks_to, 3);
    assert(lacks_to(text, '@', 'n', 2));
    lemma_lacks(text, '@', 'n', 2);
    assert(lacks_to(text, '@', 'o', 2));
    lemma_lacks(text, '@', 'o', 2);
}

proof fn lemma_part_bracket()
    ensures
        lacks(")"@, '@', 'n'),
        lacks(")"@, '@', 'o'),
        ")"@.len() == 1,
        ")"@[0] == ')',
        ")"@.last() == ')',
{
    reveal_strlit(")");
    let text = ")"@;
    lemma_short_lacks(text, '@', 'n');
    lemma_short_lacks(text, '@', 'o');
}

proof fn lemma_part_index()
    ensures
        lacks(" ORDER BY sortindex DESC"@, '@', 'n'),
        lacks(" ORDER BY sortindex DESC"@, '@', 'o'),
        lacks(" ORDER BY sortindex DESC"@, ' ', '('),
        " ORDER BY sortindex DESC"@.len() == 24,
        " ORDER BY sortindex DESC"@[0] == ' ',
        " ORDER BY sortindex DESC"@.last() == 'C',
{
    reveal_strlit(" ORDER BY sortindex DESC");
    let text = " ORDER BY sortindex DESC"@;
    reveal_with_fuel(lacks_to, 25);
    assert(lacks_to(text, '@', 'n', 24));
    lemma_lacks(text, '@', 'n', 24);
    assert(lacks_to(text, '@', 'o', 24));
    lemma_lacks(text, '@', 'o', 24);
    assert(lacks_to(text, ' ', '(', 24));
    lemma_lacks(text, ' ', '(', 24);
}

proof fn lemma_part_newest()
    ensures
        lacks(" ORDER BY modified DESC"@, '@', 'n'),
        lacks(" ORDER BY modified DESC"@, '@', 'o'),
        lacks(" ORDER BY modified DESC"@, ' ', '('),
        " ORDER BY modified DESC"@.len() == 23,
        " ORDER BY modified DESC"@[0] == ' ',
        " ORDER BY modified DESC"@.last() == 'C',
{
    reveal_strlit(" ORDER BY modified DESC");
    let text = " ORDER BY modified DESC"@;
    reveal_with_fuel(lacks_to, 24);
    assert(lacks_to(text, '@', 'n', 23));
    lemma_lacks(text, '@', 'n', 23);
    assert(lacks_to(text, '@', 'o', 23));
    lemma_lacks(text, '@', 'o', 23);
    assert(lacks_to(text, ' ', '(', 23));
    lemma_lacks(text, ' ', '(', 23);
}

proof fn lemma_part_oldest()
    ensures
        lacks(" ORDER BY modified ASC"@, '@', 'n'),
        lacks(" ORDER BY modified ASC"@, '@', 'o'),
        lacks(" ORDER BY modified ASC"@, ' ', '('),
        " ORDER BY modified ASC"@.len() == 22,
        " ORDER BY modified ASC"@[0] == ' ',
        " ORDER BY modified ASC"@.last() == 'C',
{
    reveal_strlit(" ORDER BY modified ASC");
    let text = " ORDER BY modified ASC"@;
    reveal_with_fuel(lacks_to, 23);
    assert(lacks_to(text, '@', 'n', 22));
    lemma_lacks(text, '@', 'n', 22);
    assert(lacks_to(text, '@', 'o', 22));
    lemma_lacks(text, '@', 'o', 22);
    assert(lacks_to(text, ' ', '(', 22));
    lemma_lacks(text, ' ', '(', 22);
}

proof fn lemma_part_limit()
    ensures
        lacks(" LIMIT "@, '@', 'n'),
        lacks(" LIMIT "@, '@', 'o'),
        lacks(" LIMIT "@, ' ', '('),
        " LIMIT "@.len() == 7,
        " LIMIT "@[0] == ' ',
        " LIMIT "@.last() == ' ',
{
    reveal_strlit(" LIMIT ");
    let text = " LIMIT "@;
    reveal_with_fuel(lacks_to, 8);
    assert(lacks_to(text, '@', 'n', 7));
    lemma_lacks(text, '@', 'n', 7);
    assert(lacks_to(text, '@', 'o', 7));
    lemma_lacks(text, '@', 'o', 7);
    assert(lacks_to(text, ' ', '(', 7));
    lemma_lacks(text, ' ', '(', 7);
}

proof fn lemma_part_offset()
    ensures
        lacks(" OFFSET "@, '@', 'n'),
        lacks(" OFFSET "@, '@', 'o'),
        lacks(" OFFSET "@, ' ', '('),
        " OFFSET "@.len() == 8,
        " OFFSET "@[0] == ' ',
        " OFFSET "@.last() == ' ',
{
    reveal_strlit(" OFFSET ");
    let text = " OFFSET "@;
    reveal_with_fuel(lacks_to, 9);
    assert(lacks_to(text, '@', 'n', 8));
    lemma_lacks(text, '@', 'n', 8);
    assert(lacks_to(text, '@', 'o', 8));
    lemma_lacks(text, '@', 'o', 8);
    assert(lacks_to(text, ' ', '(', 8));
    lemma_lacks(text, ' ', '(', 8);
}

/// Pairs of characters by which the conditions of a query are told apart, in the other parts of
/// its text.
proof fn lemma_parts_of_a_query()
    ensures
        lacks("SELECT id, modified, payload, COALESCE(sortindex, 0), ttl FROM bso WHERE userid = @userid AND collection = @collectionid AND ttl > @timestamp"@, '@', 'n'),
        lacks("SELECT id, modified, payload, COALESCE(sortindex, 0), ttl FROM bso WHERE userid = @userid AND collection = @collectionid AND ttl > @timestamp"@, '@', 'o'),
        lacks("SELECT id, modified, payload, COALESCE(sortindex, 0), ttl FROM bso WHERE userid = @userid AND collection = @collectionid AND ttl > @timestamp"@, ' ', '('),
        "SELECT id, modified, payload, COALESCE(sortindex, 0), ttl FROM bso WHERE userid = @userid AND collection = @collectionid AND ttl > @timestamp"@.len() == 141,
        "SELECT id, modified, payload, COALESCE(sortindex, 0), ttl FROM bso WHERE userid = @userid AND collection = @collectionid AND ttl > @timestamp"@[0] == 'S',
        "SELECT id, modified, payload, COALESCE(sortindex, 0), ttl FROM bso WHERE userid = @userid AND collection = @collectionid AND ttl > @timestamp"@.last() == 'p',
        lacks(" AND modified < @older"@, '@', 'n'),
        lacks(" AND modified < @older"@, ' ', '('),
        " AND modified < @older"@.len() == 22,
        " AND modified < @older"@[0] == ' ',
        " AND modified < @older"@.last() == 'r',
        lacks(" AND modified > @newer"@, '@', 'o'),
        lacks(" AND modified > @newer"@, ' ', '('),
        " AND modified > @newer"@.len() == 22,
        " AND modified > @newer"@[0] == ' ',
        " AND modified > @newer"@.last() == 'r',
        lacks(" AND id IN ("@, '@', 'n'),
        lacks(" AND id IN ("@, '@', 'o'),
        " AND id IN ("@.len() == 12,
        " AND id IN ("@[0] == ' ',
        " AND id IN ("@.last() == '(',
        lacks("@arg"@, '@', 'n'),
        lacks("@arg"@, '@', 'o'),
        "@arg"@.len() == 4,
        "@arg"@[0] == '@',
        "@arg"@.last() == 'g',
        lacks(", "@, '@', 'n'),
        lacks(", "@, '@', 'o'),
        ", "@.len() == 2,
        ", "@[0] == ',',
        ", "@.last() == ' ',
        lacks(")"@, '@', 'n'),
        lacks(")"@, '@', 'o'),
        ")"@.len() == 1,
        ")"@[0] == ')',
        ")"@.last() == ')',
        lacks(" ORDER BY sortindex DESC"@, '@', 'n'),
        lacks(" ORDER BY sortindex DESC"@, '@', 'o'),
        lacks(" ORDER BY sortindex DESC"@, ' ', '('),
        " ORDER BY sortindex DESC"@.len() == 24,
        " ORDER BY sortindex DESC"@[0] == ' ',
        " ORDER BY sortindex DESC"@.last() == 'C',
        lacks(" ORDER BY modified DESC"@, '@', 'n'),
        lacks(" ORDER BY modified DESC"@, '@', 'o'),
        lacks(" ORDER BY modified DESC"@, ' ', '('),
        " ORDER BY modified DESC"@.len() == 23,
        " ORDER BY modified DESC"@[0] == ' ',
        " ORDER BY modified DESC"@.last() == 'C',
        lacks(" ORDER BY modified ASC"@, '@', 'n'),
        lacks(" ORDER BY modified ASC"@, '@', 'o'),
        lacks(" ORDER BY modified ASC"@, ' ', '('),
        " ORDER BY modified ASC"@.len() == 22,
        " ORDER BY modified ASC"@[0] == ' ',
        " ORDER BY modified ASC"@.last() == 'C',
        lacks(" LIMIT "@, '@', 'n'),
        lacks(" LIMIT "@, '@', 'o'),
        lacks(" LIMIT "@, ' ', '('),
        " LIMIT "@.len() == 7,
        " LIMIT "@[0] == ' ',
        " LIMIT "@.last() == ' ',
        lacks(" OFFSET "@, '@', 'n'),
        lacks(" OFFSET "@, '@', 'o'),
        lacks(" OFFSET "@, ' ', '('),
        " OFFSET "@.len() == 8,
        " OFFSET "@[0] == ' ',
        " OFFSET "@.last() == ' ',
{
    lemma_part_first();
    lemma_part_older();
    lemma_part_newer();
    lemma_part_in();
    lemma_part_arg();
    lemma_part_comma();
    lemma_part_bracket();
    lemma_part_index();
    lemma_part_newest();
    lemma_part_oldest();
    lemma_part_limit();
    lemma_part_offset();
}

/// The statement of a query is one text for the user's live objects in a collection, and behind
/// it the conditions on times and ids that are given, the order, how many rows at most and how
/// many are left out; each is there or not whatever the others are.
pub proof fn law_query_text(query: QueryView)
    ensures
        query.sql()
            == "SELECT id, modified, payload, COALESCE(sortindex, 0), ttl FROM bso WHERE userid = @userid AND collection = @collectionid AND ttl > @timestamp"@
            + (if query.older is Some {
            " AND modified < @older"@
        } else {
            Seq::empty()
        }) + (if query.newer is Some {
            " AND modified > @newer"@
        } else {
            Seq::empty()
        }) + (if query.ids.len() > 0 {
            " AND id IN ("@ + placeholders(query.ids.len()) + ")"@
        } else {
            Seq::empty()
        }) + (match query.sort {
            Sorting::Index => " ORDER BY sortindex DESC"@,
            Sorting::Newest => " ORDER BY modified DESC"@,
            Sorting::Oldest => " ORDER BY modified ASC"@,
            Sorting::Unsorted => Seq::empty(),
        }) + (" LIMIT "@ + decimal(
            match query.limit {
                Some(limit) => limit + 1,
                None => -1,
            },
        )) + (match query.offset {
            Some(offset) => if offset as i64 != 0 {
                " OFFSET "@ + decimal(offset as i64 as int)
            } else {
                Seq::empty()
            },
            None => Seq::empty(),
        }),
{
}

/// The list of placeholders names the parameter of each id once, in order.
pub proof fn law_placeholders(n: nat)
    ensures
        placeholders(0) == Seq::<char>::empty(),
        placeholders(1) == "@arg"@ + natural(0),
        n > 0 ==> placeholders(n + 1) == placeholders(n) + ", "@ + "@arg"@ + natural(n),
{
}

proof fn lemma_placeholders(n: nat)
    requires
        n > 0,
    ensures
        lacks(placeholders(n), '@', 'n'),
        lacks(placeholders(n), '@', 'o'),
        placeholders(n).len() > 0,
        '0' <= placeholders(n).last() <= '9',
        placeholders(n)[0] == '@',
    decreases n,
{
    lemma_parts_of_a_query();
    let k = (n - 1) as nat;
    lemma_number_lacks(k as int, '@', 'n');
    lemma_number_lacks(k as int, '@', 'o');
    assert(decimal(k as int) == natural(k));
    lemma_lacks_both("@arg"@, natural(k), '@', 'n');
    lemma_lacks_both("@arg"@, natural(k), '@', 'o');
    if n > 1 {
        lemma_placeholders(k);
        lemma_lacks_both(placeholders(k), ", "@, '@', 'n');
        lemma_lacks_both(placeholders(k), ", "@, '@', 'o');
        let x = placeholders(k) + ", "@;
        lemma_lacks_both(x, "@arg"@, '@', 'n');
        lemma_lacks_both(x, "@arg"@, '@', 'o');
        lemma_lacks_both(x + "@arg"@, natural(k), '@', 'n');
        lemma_lacks_both(x + "@arg"@, natural(k), '@', 'o');
    }
}

/// The placeholder of an id, with what follows on it in the list.
pub open spec fn lists(sql: Seq<char>, i: nat) -> bool {
    has(sql, "@arg"@ + natural(i) + ","@) || has(sql, "@arg"@ + natural(i) + ")"@)
}

/// Behind all others stands the last.
proof fn lemma_lists_last(front: Seq<char>, part: Seq<char>)
    ensures
        has(front + part, part),
{
    lemma_has_itself(part);
    lemma_has_behind(front, part, part);
}

/// An item that another follows on is followed by a comma.
proof fn lemma_lists_next(list: Seq<char>, front: Seq<char>, item: Seq<char>, more: Seq<char>)
    requires
        list == front + item,
    ensures
        has(list + ", "@ + more, item + ","@),
{
    let part = item + ","@;
    let rest = seq![' '] + more;
    assert(", "@ == ","@ + seq![' ']) by {
        reveal_strlit(", ");
        reveal_strlit(",");
        assert(", "@ =~= ","@ + seq![' ']);
    }
    lemma_assoc(front + item, ","@, seq![' ']);
    lemma_assoc(front, item, ","@);
    lemma_assoc(front + part, seq![' '], more);
    lemma_lists_last(front, part);
    lemma_has_before(front + part, rest, part);
}

proof fn lemma_assoc(x: Seq<char>, y: Seq<char>, z: Seq<char>)
    ensures
        x + (y + z) == x + y + z,
{
    assert(x + (y + z) =~= x + y + z);
}

/// How a list of placeholders ends.
spec fn before_last(n: nat) -> Seq<char> {
    if n <= 1 {
        Seq::empty()
    } else {
        placeholders((n - 1) as nat) + ", "@
    }
}

proof fn lemma_lists_each(n: nat, i: nat)
    requires
        i < n,
    ensures
        placeholders(n) == before_last(n) + ("@arg"@ + natural((n - 1) as nat)),
        i + 1 < n ==> has(placeholders(n), "@arg"@ + natural(i) + ","@),
    decreases n,
{
    let k = (n - 1) as nat;
    let more = "@arg"@ + natural(k);
    assert(placeholders(n) =~= before_last(n) + more);
    if i + 1 < n {
        let item = "@arg"@ + natural(i);
        assert(placeholders(n) =~= placeholders(k) + ", "@ + more);
        lemma_lists_each(k, if i < k {
            i
        } else {
            0
        });
        if i + 1 == k {
            lemma_lists_next(placeholders(k), before_last(k), item, more);
        } else {
            lemma_has_before(placeholders(k), ", "@ + more, item + ","@);
            assert(placeholders(k) + (", "@ + more) =~= placeholders(n));
        }
    }
}

/// In a list in brackets every placeholder is followed by a comma or by the bracket.
proof fn lemma_lists_all(n: nat, i: nat)
    requires
        i < n,
    ensures
        lists(placeholders(n) + ")"@, i),
{
    lemma_lists_each(n, i);
    let item = "@arg"@ + natural(i);
    if i + 1 == n {
        lemma_lists_last(before_last(n), item + ")"@);
        lemma_assoc(before_last(n), item, ")"@);
    } else {
        lemma_has_before(placeholders(n), ")"@, item + ","@);
    }
}

/// Of seven texts in a row, each is there.
proof fn lemma_seven(
    a: Seq<char>,
    b: Seq<char>,
    c: Seq<char>,
    d: Seq<char>,
    e: Seq<char>,
    f: Seq<char>,
    g: Seq<char>,
)
    ensures
        ({
            let whole = a + b + c + d + e + f + g;
            &&& forall|part: Seq<char>| #[trigger] has(a, part) ==> has(whole, part)
            &&& has(whole, b)
            &&& has(whole, c)
            &&& forall|part: Seq<char>| #[trigger] has(d, part) ==> has(whole, part)
            &&& has(whole, e)
            &&& has(whole, f)
            &&& has(whole, g)
        }),
{
    let s1 = a + b;
    let s2 = s1 + c;
    let s3 = s2 + d;
    let s4 = s3 + e;
    let s5 = s4 + f;
    let whole = s5 + g;
    assert forall|part: Seq<char>| #[trigger] has(a, part) implies has(whole, part) by {
        lemma_has_before(a, b, part);
        lemma_has_before(s1, c, part);
        lemma_has_before(s2, d, part);
        lemma_has_before(s3, e, part);
        lemma_has_before(s4, f, part);
        lemma_has_before(s5, g, part);
    }
    lemma_lists_last(a, b);
    lemma_has_before(s1, c, b);
    lemma_has_before(s2, d, b);
    lemma_has_before(s3, e, b);
    lemma_has_before(s4, f, b);
    lemma_has_before(s5, g, b);
    lemma_lists_last(s1, c);
    lemma_has_before(s2, d, c);
    lemma_has_before(s3, e, c);
    lemma_has_before(s4, f, c);
    lemma_has_before(s5, g, c);
    assert forall|part: Seq<char>| #[trigger] has(d, part) implies has(whole, part) by {
        lemma_has_behind(s2, d, part);
        lemma_has_before(s3, e, part);
        lemma_has_before(s4, f, part);
        lemma_has_before(s5, g, part);
    }
    lemma_lists_last(s3, e);
    lemma_has_before(s4, f, e);
    lemma_has_before(s5, g, e);
    lemma_lists_last(s4, f);
    lemma_has_before(s5, g, f);
    lemma_lists_last(s5, g);
}

/// The first part of a query's text is about one collection of one user, and live objects.
proof fn lemma_first_part_has()
    ensures
        has(
            "SELECT id, modified, payload, COALESCE(sortindex, 0), ttl FROM bso WHERE userid = @userid AND collection = @collectionid AND ttl > @timestamp"@,
            "userid = @userid"@,
        ),
        has(
            "SELECT id, modified, payload, COALESCE(sortindex, 0), ttl FROM bso WHERE userid = @userid AND collection = @collectionid AND ttl > @timestamp"@,
            " AND collection = @collectionid"@,
        ),
        has(
            "SELECT id, modified, payload, COALESCE(sortindex, 0), ttl FROM bso WHERE userid = @userid AND collection = @collectionid AND ttl > @timestamp"@,
            " AND ttl > @timestamp"@,
        ),
{
    reveal_strlit(
        "SELECT id, modified, payload, COALESCE(sortindex, 0), ttl FROM bso WHERE userid = @userid AND collection = @collectionid AND ttl > @timestamp",
    );
    let text = "SELECT id, modified, payload, COALESCE(sortindex, 0), ttl FROM bso WHERE userid = @userid AND collection = @collectionid AND ttl > @timestamp"@;
    reveal_with_fuel(agrees_to, 33);
    assert(has(text, "userid = @userid"@)) by {
        reveal_strlit("userid = @userid");
        let part = "userid = @userid"@;
        assert(agrees_to(text, part, 73, 8));
        assert(agrees_to(text, part, 73, 16));
        lemma_stands_at(text, part, 73);
    }
    assert(has(text, " AND collection = @collectionid"@)) by {
        reveal_strlit(" AND collection = @collectionid");
        let part = " AND collection = @collectionid"@;
        assert(agrees_to(text, part, 89, 15));
        assert(agrees_to(text, part, 89, 31));
        lemma_stands_at(text, part, 89);
    }
    assert(has(text, " AND ttl > @timestamp"@)) by {
        reveal_strlit(" AND ttl > @timestamp");
        let part = " AND ttl > @timestamp"@;
        assert(agrees_to(text, part, 120, 10));
        assert(agrees_to(text, part, 120, 21));
        lemma_stands_at(text, part, 120);
    }
}

/// The parts of a query's text stand in it.
proof fn lemma_query_has(query: QueryView)
    ensures
        has(query.sql(), "userid = @userid"@),
        has(query.sql(), " AND collection = @collectionid"@),
        has(query.sql(), " AND ttl > @timestamp"@),
        has(query.sql(), query.older_clause()),
        has(query.sql(), query.newer_clause()),
        forall|part: Seq<char>| #[trigger]
            has(query.ids_clause(), part) ==> has(query.sql(), part),
        has(query.sql(), query.order_clause()),
        has(query.sql(), query.limit_clause()),
        has(query.sql(), query.offset_clause()),
{
    lemma_first_part_has();
    lemma_seven(
        "SELECT id, modified, payload, COALESCE(sortindex, 0), ttl FROM bso WHERE userid = @userid AND collection = @collectionid AND ttl > @timestamp"@,
        query.older_clause(),
        query.newer_clause(),
        query.ids_clause(),
        query.order_clause(),
        query.limit_clause(),
        query.offset_clause(),
    );
}

/// The condition on ids lists each.
proof fn lemma_ids_clause_has(query: QueryView)
    requires
        query.ids.len() > 0,
    ensures
        has(query.ids_clause(), " AND id IN ("@),
        forall|i: nat| i < query.ids.len() ==> #[trigger] lists(query.ids_clause(), i),
{
    let n = query.ids.len();
    let inside = placeholders(n) + ")"@;
    let clause = query.ids_clause();
    assert(clause =~= " AND id IN ("@ + inside);
    lemma_has_itself(" AND id IN ("@);
    lemma_has_before(" AND id IN ("@, inside, " AND id IN ("@);
    assert forall|i: nat| i < n implies #[trigger] lists(clause, i) by {
        lemma_lists_all(n, i);
        let item = "@arg"@ + natural(i);
        if has(inside, item + ","@) {
            lemma_has_behind(" AND id IN ("@, inside, item + ","@);
        } else {
            lemma_has_behind(" AND id IN ("@, inside, item + ")"@);
        }
    }
}

/// The text for no limit.
proof fn lemma_no_limit()
    ensures
        " LIMIT -1"@ == " LIMIT "@ + decimal(-1),
{
    reveal_strlit(" LIMIT -1");
    reveal_strlit(" LIMIT ");
    assert(natural(1) =~= seq!['1']);
    assert(decimal(-1) =~= seq!['-', '1']);
    assert(" LIMIT -1"@ =~= " LIMIT "@ + decimal(-1));
}

/// Whenever a query gives a condition its text is in the statement, whatever else the query
/// gives, and whenever it does not the text is not; each id that is given is listed.
pub proof fn law_query_conditions(query: QueryView)
    ensures
        has(query.sql(), "userid = @userid"@),
        has(query.sql(), " AND collection = @collectionid"@),
        has(query.sql(), " AND ttl > @timestamp"@),
        has(query.sql(), " AND modified > @newer"@) <==> query.newer is Some,
        has(query.sql(), " AND modified < @older"@) <==> query.older is Some,
        has(query.sql(), " AND id IN ("@) <==> query.ids.len() > 0,
        forall|i: nat| i < query.ids.len() ==> #[trigger] lists(query.sql(), i),
        query.sort is Index ==> has(query.sql(), " ORDER BY sortindex DESC"@),
        query.sort is Newest ==> has(query.sql(), " ORDER BY modified DESC"@),
        query.sort is Oldest ==> has(query.sql(), " ORDER BY modified ASC"@),
        query.limit matches Some(limit) ==> has(query.sql(), " LIMIT "@ + decimal(limit + 1)),
        query.limit is None ==> has(query.sql(), " LIMIT -1"@),
        query.offset matches Some(offset) ==> (offset != 0 ==> has(
            query.sql(),
            " OFFSET "@ + decimal(signed(offset)),
        )),
{
    if let Some(offset) = query.offset {
        lemma_signed(offset);
    }
    lemma_query_has(query);
    lemma_no_limit();
    let sql = query.sql();
    if query.ids.len() > 0 {
        lemma_ids_clause_has(query);
        assert forall|i: nat| i < query.ids.len() implies #[trigger] lists(sql, i) by {
            assert(lists(query.ids_clause(), i));
            let item = "@arg"@ + natural(i);
            assert(has(query.ids_clause(), item + ","@) ==> has(sql, item + ","@));
            assert(has(query.ids_clause(), item + ")"@) ==> has(sql, item + ")"@));
        }
    } else {
        lemma_query_lacks(query, ' ', '(');
        if has(sql, " AND id IN ("@) {
            reveal_strlit(" AND id IN (");
            lemma_pair_of_part(sql, " AND id IN ("@, 10);
        }
    }
    if query.newer is None {
        lemma_query_lacks(query, '@', 'n');
        if has(sql, " AND modified > @newer"@) {
            reveal_strlit(" AND modified > @newer");
            lemma_pair_of_part(sql, " AND modified > @newer"@, 16);
        }
    }
    if query.older is None {
        lemma_query_lacks(query, '@', 'o');
        if has(sql, " AND modified < @older"@) {
            reveal_strlit(" AND modified < @older");
            lemma_pair_of_part(sql, " AND modified < @older"@, 16);
        }
    }
}

proof fn lemma_query_lacks(query: QueryView, a: char, b: char)
    requires
        (a == '@' && b == 'n' && query.newer is None) || (a == '@' && b == 'o' && query.older
            is None) || (a == ' ' && b == '(' && query.ids.len() == 0),
    ensures
        lacks(query.sql(), a, b),
{
    lemma_parts_of_a_query();
    let base = "SELECT id, modified, payload, COALESCE(sortindex, 0), ttl FROM bso WHERE userid = @userid AND collection = @collectionid AND ttl > @timestamp"@;
    let start = query.start() as int;
    let rows: int = match query.limit {
        Some(limit) => limit + 1,
        None => -1,
    };
    lemma_number_lacks(rows, a, b);
    lemma_number_lacks(start, a, b);
    lemma_short_lacks(Seq::empty(), a, b);
    let list = if query.ids.len() > 0 {
        lemma_placeholders(query.ids.len());
        lemma_lacks_both(" AND id IN ("@, placeholders(query.ids.len()), a, b);
        lemma_lacks_both(" AND id IN ("@ + placeholders(query.ids.len()), ")"@, a, b);
        " AND id IN ("@ + placeholders(query.ids.len()) + ")"@
    } else {
        Seq::empty()
    };
    let s1 = base + query.older_clause();
    lemma_lacks_both(base, query.older_clause(), a, b);
    let s2 = s1 + query.newer_clause();
    lemma_lacks_both(s1, query.newer_clause(), a, b);
    let s3 = s2 + list;
    lemma_lacks_both(s2, list, a, b);
    let s4 = s3 + query.order_clause();
    lemma_lacks_both(s3, query.order_clause(), a, b);
    lemma_lacks_both(" LIMIT "@, decimal(rows), a, b);
    lemma_lacks_both(" OFFSET "@, decimal(start), a, b);
    let s5 = s4 + query.limit_clause();
    lemma_lacks_both(s4, query.limit_clause(), a, b);
    lemma_lacks_both(s5, query.offset_clause(), a, b);
}

} // verus!
