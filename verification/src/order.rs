//! Lexicographic order on addresses.
//!
//! Member rosters and ballot ledgers are kept sorted by address, so
//! listings come out in address order and an exclusive cursor resolves
//! to "everything strictly greater". The order compares character by
//! character, shorter prefixes first.

use vstd::prelude::*;
use vstd::string::StrSliceExecFns;

verus! {

/// Whether `a` sorts strictly before `b`: at the first differing
/// position the smaller character decides, and a proper prefix sorts
/// before its extension.
pub open spec fn spec_str_lt(a: Seq<char>, b: Seq<char>) -> bool
    decreases a.len(),
{
    if b.len() == 0 {
        false
    } else if a.len() == 0 {
        true
    } else if a[0] == b[0] {
        spec_str_lt(a.drop_first(), b.drop_first())
    } else {
        (a[0] as int) < (b[0] as int)
    }
}

/// Nothing sorts before itself.
pub proof fn lemma_str_lt_irreflexive(a: Seq<char>)
    ensures
        !spec_str_lt(a, a),
    decreases a.len(),
{
    if a.len() > 0 {
        lemma_str_lt_irreflexive(a.drop_first());
    }
}

/// Two distinct sequences sort one way or the other.
pub proof fn lemma_str_lt_connected(a: Seq<char>, b: Seq<char>)
    requires
        a != b,
    ensures
        spec_str_lt(a, b) || spec_str_lt(b, a),
    decreases a.len(),
{
    if a.len() == 0 && b.len() == 0 {
        assert(a =~= b);
    } else if a.len() > 0 && b.len() > 0 && a[0] == b[0] {
        if a.drop_first() == b.drop_first() {
            assert(a.drop_first().len() == a.len() - 1);
            assert(b.drop_first().len() == b.len() - 1);
            assert(a.len() == b.len());
            assert forall|j: int| 0 <= j < a.len() implies a[j] == b[j] by {
                if j > 0 {
                    assert(a[j] == a.drop_first()[j - 1]);
                    assert(b[j] == b.drop_first()[j - 1]);
                }
            }
            assert(a =~= b);
        }
        lemma_str_lt_connected(a.drop_first(), b.drop_first());
    }
}

/// The order is transitive.
pub proof fn lemma_str_lt_transitive(a: Seq<char>, b: Seq<char>, c: Seq<char>)
    requires
        spec_str_lt(a, b),
        spec_str_lt(b, c),
    ensures
        spec_str_lt(a, c),
    decreases a.len(),
{
    if a.len() > 0 && b.len() > 0 && c.len() > 0 && a[0] == b[0] && b[0] == c[0] {
        lemma_str_lt_transitive(a.drop_first(), b.drop_first(), c.drop_first());
    }
}

/// The order is asymmetric.
pub proof fn lemma_str_lt_asymmetric(a: Seq<char>, b: Seq<char>)
    requires
        spec_str_lt(a, b),
    ensures
        !spec_str_lt(b, a),
{
    if spec_str_lt(b, a) {
        lemma_str_lt_transitive(a, b, a);
        lemma_str_lt_irreflexive(a);
    }
}

/// Sorting strictly before another sequence rules equality out.
pub proof fn lemma_str_lt_neq(a: Seq<char>, b: Seq<char>)
    requires
        spec_str_lt(a, b),
    ensures
        a != b,
{
    if a == b {
        lemma_str_lt_irreflexive(a);
    }
}

/// A shared prefix plays no role in the comparison.
proof fn lemma_str_lt_common_prefix(a: Seq<char>, b: Seq<char>, i: int)
    requires
        0 <= i <= a.len(),
        i <= b.len(),
        forall|j: int| 0 <= j < i ==> a[j] == b[j],
    ensures
        spec_str_lt(a, b) == spec_str_lt(a.skip(i), b.skip(i)),
    decreases i,
{
    if i > 0 {
        assert(a.len() > 0 && b.len() > 0);
        assert(a[0] == b[0]);
        lemma_str_lt_common_prefix(a.drop_first(), b.drop_first(), i - 1);
        assert(a.drop_first().skip(i - 1) =~= a.skip(i));
        assert(b.drop_first().skip(i - 1) =~= b.skip(i));
    } else {
        assert(a.skip(0) =~= a);
        assert(b.skip(0) =~= b);
    }
}

/// Decides whether `a` sorts strictly before `b`.
pub fn addr_lt(a: &String, b: &String) -> (r: bool)
    ensures
        r == spec_str_lt(a@, b@),
{
    let a_len = a.as_str().unicode_len();
    let b_len = b.as_str().unicode_len();
    let mut i: usize = 0;
    while i < a_len && i < b_len
        invariant
            i <= a_len,
            i <= b_len,
            a_len == a@.len(),
            b_len == b@.len(),
            forall|j: int| 0 <= j < i ==> a@[j] == b@[j],
        decreases a_len - i,
    {
        let ca = a.as_str().get_char(i);
        let cb = b.as_str().get_char(i);
        if ca != cb {
            proof {
                lemma_str_lt_common_prefix(a@, b@, i as int);
                assert(a@.skip(i as int)[0] == ca);
                assert(b@.skip(i as int)[0] == cb);
            }
            return (ca as u32) < (cb as u32);
        }
        i = i + 1;
    }
    proof {
        lemma_str_lt_common_prefix(a@, b@, i as int);
        if i == a_len {
            assert(a@.skip(i as int).len() == 0);
        } else {
            assert(b@.skip(i as int).len() == 0);
        }
    }
    a_len < b_len
}

/// The first position at or after `from` whose name sorts strictly
/// above `cursor`; the end when none does. Over a sorted sequence this
/// is where the page after an exclusive cursor begins, whether or not
/// the cursor itself is listed.
pub open spec fn spec_first_above(names: Seq<Seq<char>>, cursor: Seq<char>, from: int) -> int
    decreases names.len() - from,
{
    if from < 0 || from >= names.len() {
        names.len() as int
    } else if spec_str_lt(cursor, names[from]) {
        from
    } else {
        spec_first_above(names, cursor, from + 1)
    }
}

/// The resolved position lies between the search start and the end.
pub proof fn lemma_first_above_bounds(names: Seq<Seq<char>>, cursor: Seq<char>, from: int)
    requires
        0 <= from <= names.len(),
    ensures
        from <= spec_first_above(names, cursor, from) <= names.len(),
    decreases names.len() - from,
{
    if from < names.len() && !spec_str_lt(cursor, names[from]) {
        lemma_first_above_bounds(names, cursor, from + 1);
    }
}

/// Skipping over names that do not sort above the cursor does not move
/// the resolved position.
pub proof fn lemma_first_above_skip(names: Seq<Seq<char>>, cursor: Seq<char>, j: int)
    requires
        0 <= j <= names.len(),
        forall|t: int| 0 <= t < j ==> !spec_str_lt(cursor, #[trigger] names[t]),
    ensures
        spec_first_above(names, cursor, 0) == spec_first_above(names, cursor, j),
    decreases j,
{
    if j > 0 {
        lemma_first_above_skip(names, cursor, j - 1);
        assert(spec_first_above(names, cursor, j - 1) == spec_first_above(names, cursor, j));
    }
}

} // verus!
