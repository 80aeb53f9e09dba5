//! What stands in a text and what does not.

use vstd::prelude::*;

use crate::decimal::{decimal, lemma_natural_round_trip, natural};

verus! {

/// The part stands somewhere in the text.
pub open spec fn has(text: Seq<char>, part: Seq<char>) -> bool {
    exists|k: int| #[trigger] stands_at(text, part, k)
}

/// The part stands in the text from that character on.
pub open spec fn stands_at(text: Seq<char>, part: Seq<char>, k: int) -> bool {
    0 <= k && k + part.len() <= text.len() && text.subrange(k, k + part.len()) == part
}

/// Nowhere does `b` follow on `a`.
#[verifier::opaque]
pub open spec fn lacks(text: Seq<char>, a: char, b: char) -> bool {
    forall|i: int, j: int|
        #![trigger text[i], text[j]]
        0 <= i && j == i + 1 && j < text.len() ==> !(text[i] == a && text[j] == b)
}

/// Nowhere among the first characters does `b` follow on `a`.
pub open spec fn lacks_to(text: Seq<char>, a: char, b: char, n: nat) -> bool
    decreases n,
{
    n < 2 || (!(text[n - 2] == a && text[n - 1] == b) && lacks_to(text, a, b, (n - 1) as nat))
}

pub proof fn lemma_lacks(text: Seq<char>, a: char, b: char, n: nat)
    requires
        n == text.len(),
        lacks_to(text, a, b, n),
    ensures
        lacks(text, a, b),
{
    reveal(lacks);
    lemma_lacks_to(text, a, b, n);
}

proof fn lemma_lacks_to(text: Seq<char>, a: char, b: char, n: nat)
    requires
        n <= text.len(),
        lacks_to(text, a, b, n),
    ensures
        forall|i: int, j: int|
            #![trigger text[i], text[j]]
            0 <= i && j == i + 1 && j < n ==> !(text[i] == a && text[j] == b),
    decreases n,
{
    if n >= 2 {
        lemma_lacks_to(text, a, b, (n - 1) as nat);
    }
}

/// The first characters of the part are those of the text from that character on.
pub open spec fn agrees_to(text: Seq<char>, part: Seq<char>, k: int, n: nat) -> bool
    decreases n,
{
    n == 0 || (text[k + n - 1] == part[n - 1] && agrees_to(text, part, k, (n - 1) as nat))
}

/// A part stands where all its characters are those of the text.
pub proof fn lemma_stands_at(text: Seq<char>, part: Seq<char>, k: int)
    requires
        0 <= k,
        k + part.len() <= text.len(),
        agrees_to(text, part, k, part.len()),
    ensures
        has(text, part),
{
    lemma_agrees_to(text, part, k, part.len());
    assert(text.subrange(k, k + part.len()) =~= part);
    assert(stands_at(text, part, k));
}

proof fn lemma_agrees_to(text: Seq<char>, part: Seq<char>, k: int, n: nat)
    requires
        agrees_to(text, part, k, n),
    ensures
        forall|i: int| 0 <= i < n ==> text[k + i] == #[trigger] part[i],
    decreases n,
{
    if n > 0 {
        lemma_agrees_to(text, part, k, (n - 1) as nat);
    }
}

/// A text without characters, and one of a single character, lack every pair.
pub proof fn lemma_short_lacks(text: Seq<char>, a: char, b: char)
    requires
        text.len() < 2,
    ensures
        lacks(text, a, b),
{
    reveal(lacks);
}

/// Two texts that lack a pair lack it together, unless it comes about between them.
pub proof fn lemma_lacks_both(x: Seq<char>, y: Seq<char>, a: char, b: char)
    requires
        lacks(x, a, b),
        lacks(y, a, b),
        x.len() > 0 && y.len() > 0 ==> !(x.last() == a && y[0] == b),
    ensures
        lacks(x + y, a, b),
{
    reveal(lacks);
    let z = x + y;
    assert forall|i: int, j: int|
        #![trigger z[i], z[j]]
        0 <= i && j == i + 1 && j < z.len() implies !(z[i] == a && z[j] == b) by {
        if j < x.len() {
            assert(z[i] == x[i] && z[j] == x[j]);
        } else if i >= x.len() {
            assert(z[i] == y[i - x.len()] && z[j] == y[j - x.len()]);
        } else {
            assert(z[i] == x.last() && z[j] == y[0]);
        }
    }
}

/// What stands in a text brings its pairs along.
pub proof fn lemma_pair_of_part(text: Seq<char>, part: Seq<char>, i: int)
    requires
        has(text, part),
        0 <= i,
        i + 1 < part.len(),
    ensures
        !lacks(text, part[i], part[i + 1]),
{
    reveal(lacks);
    let k = choose|k: int| #[trigger] stands_at(text, part, k);
    let found = text.subrange(k, k + part.len());
    assert(found[i] == text[k + i] && found[i + 1] == text[k + i + 1]);
}

/// What stands in a text stands in it with more behind it.
pub proof fn lemma_has_before(x: Seq<char>, y: Seq<char>, part: Seq<char>)
    requires
        has(x, part),
    ensures
        has(x + y, part),
{
    let k = choose|k: int| #[trigger] stands_at(x, part, k);
    assert((x + y).subrange(k, k + part.len()) =~= x.subrange(k, k + part.len()));
    assert(stands_at(x + y, part, k));
}

/// What stands in a text stands in it with more in front of it.
pub proof fn lemma_has_behind(x: Seq<char>, y: Seq<char>, part: Seq<char>)
    requires
        has(y, part),
    ensures
        has(x + y, part),
{
    let k = choose|k: int| #[trigger] stands_at(y, part, k);
    assert((x + y).subrange(x.len() + k, x.len() + k + part.len()) =~= y.subrange(
        k,
        k + part.len(),
    ));
    assert(stands_at(x + y, part, x.len() + k));
}

/// A text stands in itself.
pub proof fn lemma_has_itself(x: Seq<char>)
    ensures
        has(x, x),
{
    assert(x.subrange(0, x.len() as int) =~= x);
    assert(stands_at(x, x, 0));
}

/// A number in decimal has digits only, behind a minus sign at most.
pub proof fn lemma_number_lacks(i: int, a: char, b: char)
    requires
        !('0' <= b <= '9'),
    ensures
        lacks(decimal(i), a, b),
        decimal(i).len() > 0,
        '0' <= decimal(i).last() <= '9',
        decimal(i)[0] == '-' || '0' <= decimal(i)[0] <= '9',
        i >= 0 ==> '0' <= decimal(i)[0] <= '9',
{
    reveal(lacks);
    let n = if i < 0 {
        (-i) as nat
    } else {
        i as nat
    };
    lemma_natural_round_trip(n);
    let text = decimal(i);
    assert forall|x: int, y: int|
        #![trigger text[x], text[y]]
        0 <= x && y == x + 1 && y < text.len() implies !(text[x] == a && text[y] == b) by {
        let d = natural(n);
        if i < 0 {
            assert(text[y] == d[y - 1]);
        } else {
            assert(text[y] == d[y]);
        }
    }
    if i < 0 {
        assert(text.last() == natural(n)[natural(n).len() - 1]);
    }
}

} // verus!
