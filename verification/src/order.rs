//! Lexicographic ordering machinery: a `<=`-style order on characters, its
//! lifting to sequences, and proofs that the lifting preserves the properties
//! of a total order. The catalog uses these orders to fix the canonical
//! arrangement of its item and recipe lists.

use vstd::prelude::*;
use vstd::relations::{antisymmetric, sorted_by, strongly_connected, total_ordering, transitive};

verus! {

/// Order on characters by code point.
pub open spec fn char_le(a: char, b: char) -> bool {
    (a as u32) <= (b as u32)
}

/// The character order as a relation value, for use with `Seq::sort_by` and
/// the relation predicates of `vstd::relations`.
pub open spec fn char_order() -> spec_fn(char, char) -> bool {
    |a: char, b: char| char_le(a, b)
}

/// Lexicographic order on sequences, lifted from an order `le` on elements:
/// compare element-wise from the front; at the first differing position the
/// element order decides; a sequence that runs out first comes first.
pub open spec fn lex_le<T>(a: Seq<T>, b: Seq<T>, le: spec_fn(T, T) -> bool) -> bool
    decreases a.len(),
{
    if a.len() == 0 {
        true
    } else if b.len() == 0 {
        false
    } else if a[0] == b[0] {
        lex_le(a.drop_first(), b.drop_first(), le)
    } else {
        le(a[0], b[0])
    }
}

/// The character order is a total order.
pub proof fn lemma_char_order_total()
    ensures
        total_ordering(char_order()),
{
    let r = char_order();
    assert forall|x: char, y: char| #[trigger] r(x, y) && #[trigger] r(y, x) implies x == y by {
        vstd::utf8::char_u32_cast(x, x as u32);
        vstd::utf8::char_u32_cast(y, y as u32);
    }
    assert(antisymmetric(r));
}

pub proof fn lemma_lex_le_antisymmetric<T>(a: Seq<T>, b: Seq<T>, le: spec_fn(T, T) -> bool)
    requires
        antisymmetric(le),
        lex_le(a, b, le),
        lex_le(b, a, le),
    ensures
        a == b,
    decreases a.len(),
{
    if a.len() == 0 {
        assert(b.len() == 0);
        assert(a =~= b);
    } else {
        assert(b.len() > 0);
        if a[0] == b[0] {
            lemma_lex_le_antisymmetric(a.drop_first(), b.drop_first(), le);
            assert(a =~= b) by {
                assert forall|i: int| 0 < i < a.len() implies a[i] == b[i] by {
                    assert(a.drop_first()[i - 1] == b.drop_first()[i - 1]);
                }
            }
        } else {
            assert(a[0] == b[0]);
        }
    }
}

pub proof fn lemma_lex_le_transitive<T>(a: Seq<T>, b: Seq<T>, c: Seq<T>, le: spec_fn(T, T) -> bool)
    requires
        antisymmetric(le),
        transitive(le),
        lex_le(a, b, le),
        lex_le(b, c, le),
    ensures
        lex_le(a, c, le),
    decreases a.len(),
{
    if a.len() == 0 {
    } else {
        assert(b.len() > 0);
        assert(c.len() > 0);
        if a[0] == b[0] && b[0] == c[0] {
            lemma_lex_le_transitive(a.drop_first(), b.drop_first(), c.drop_first(), le);
        } else if a[0] != b[0] && b[0] != c[0] {
            if a[0] == c[0] {
                // le(a[0], b[0]) and le(b[0], a[0]) would force a[0] == b[0]
                assert(le(b[0], a[0]));
                assert(false);
            }
        }
    }
}

pub proof fn lemma_lex_le_connected<T>(a: Seq<T>, b: Seq<T>, le: spec_fn(T, T) -> bool)
    requires
        strongly_connected(le),
    ensures
        lex_le(a, b, le) || lex_le(b, a, le),
    decreases a.len(),
{
    if a.len() > 0 && b.len() > 0 && a[0] == b[0] {
        lemma_lex_le_connected(a.drop_first(), b.drop_first(), le);
    }
}

/// Comparing two sequences that agree on their first `i` elements is the same
/// as comparing what remains after those elements.
pub proof fn lemma_lex_le_skip<T>(a: Seq<T>, b: Seq<T>, le: spec_fn(T, T) -> bool, i: int)
    requires
        0 <= i <= a.len(),
        i <= b.len(),
        forall|j: int| 0 <= j < i ==> a[j] == b[j],
    ensures
        lex_le(a, b, le) == lex_le(a.skip(i), b.skip(i), le),
    decreases i,
{
    if i > 0 {
        lemma_lex_le_skip(a.drop_first(), b.drop_first(), le, i - 1);
        assert(a.drop_first().skip(i - 1) =~= a.skip(i));
        assert(b.drop_first().skip(i - 1) =~= b.skip(i));
    } else {
        assert(a.skip(0) =~= a);
        assert(b.skip(0) =~= b);
    }
}

/// Inserting an element at the position found by a linear scan keeps a
/// sequence sorted.
pub proof fn lemma_sorted_insert<T>(s: Seq<T>, pos: int, x: T, le: spec_fn(T, T) -> bool)
    requires
        total_ordering(le),
        sorted_by(s, le),
        0 <= pos <= s.len(),
        forall|k: int| 0 <= k < pos ==> le(#[trigger] s[k], x),
        pos < s.len() ==> !le(s[pos], x),
    ensures
        sorted_by(s.insert(pos, x), le),
{
    s.insert_ensures(pos, x);
    let t = s.insert(pos, x);
    assert forall|i: int, j: int| 0 <= i < j < t.len() implies le(t[i], t[j]) by {
        if i == pos && j > pos {
            assert(le(x, s[pos]));
            if j - 1 > pos {
                assert(le(s[pos], s[j - 1]));
            }
        } else if i < pos && j == pos {
            assert(le(s[i], x));
        } else if i < pos && j > pos {
            assert(t[i] == s[i] && t[j] == s[j - 1]);
            if i < j - 1 {
                assert(le(s[i], s[j - 1]));
            }
        }
    }
}

} // verus!
