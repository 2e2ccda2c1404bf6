//! Helpers for sequences that act as id-keyed mappings: finding the entry
//! that satisfies a predicate, and relating mapped sequences to their source.

use vstd::assert_seqs_equal;
use vstd::prelude::*;

verus! {

/// Index of the first element of `s` that satisfies `p`, or `-1` when none does.
pub open spec fn first_index_where<T>(s: Seq<T>, p: spec_fn(T) -> bool) -> int
    decreases s.len(),
{
    if s.len() == 0 {
        -1
    } else if p(s[0]) {
        0
    } else {
        let r = first_index_where(s.drop_first(), p);
        if r < 0 {
            -1
        } else {
            r + 1
        }
    }
}

/// Some element of `s` satisfies `p`.
pub open spec fn has_where<T>(s: Seq<T>, p: spec_fn(T) -> bool) -> bool {
    exists|i: int| 0 <= i < s.len() && p(s[i])
}

/// `first_index_where` finds exactly the first satisfying element.
pub proof fn lemma_first_index_where<T>(s: Seq<T>, p: spec_fn(T) -> bool)
    ensures
        has_where(s, p) <==> first_index_where(s, p) >= 0,
        first_index_where(s, p) >= 0 ==> first_index_where(s, p) < s.len() && p(
            s[first_index_where(s, p)],
        ) && (forall|k: int| 0 <= k < first_index_where(s, p) ==> !p(s[k])),
        first_index_where(s, p) < 0 ==> forall|k: int| 0 <= k < s.len() ==> !p(s[k]),
    decreases s.len(),
{
    if s.len() != 0 && !p(s[0]) {
        let d = s.drop_first();
        lemma_first_index_where(d, p);
        assert(forall|k: int| 0 <= k < d.len() ==> d[k] == s[k + 1]);
        let r = first_index_where(d, p);
        if r >= 0 {
            assert(first_index_where(s, p) == r + 1);
            assert(p(d[r]));
            assert(p(s[r + 1]));
            assert forall|k: int| 0 <= k < r + 1 implies !p(s[k]) by {
                if k > 0 {
                    assert(!p(d[k - 1]));
                }
            }
        } else {
            assert forall|k: int| 0 <= k < s.len() implies !p(s[k]) by {
                if k > 0 {
                    assert(!p(d[k - 1]));
                }
            }
        }
        if has_where(s, p) {
            let i = choose|i: int| 0 <= i < s.len() && p(s[i]);
            assert(i > 0);
            assert(p(d[i - 1]));
            assert(has_where(d, p));
        }
        if has_where(d, p) {
            let i = choose|i: int| 0 <= i < d.len() && p(d[i]);
            assert(p(s[i + 1]));
            assert(has_where(s, p));
        }
    }
}

/// If `j` is a satisfying index and nothing before it satisfies `p`,
/// then `j` is the first satisfying index.
pub proof fn lemma_first_index_where_is<T>(s: Seq<T>, p: spec_fn(T) -> bool, j: int)
    requires
        0 <= j < s.len(),
        p(s[j]),
        forall|k: int| 0 <= k < j ==> !p(s[k]),
    ensures
        first_index_where(s, p) == j,
    decreases s.len(),
{
    if j != 0 {
        assert(forall|k: int| 0 <= k < s.drop_first().len() ==> s.drop_first()[k] == s[k + 1]);
        assert(s.drop_first()[j - 1] == s[j]);
        lemma_first_index_where_is(s.drop_first(), p, j - 1);
    }
}

/// An element satisfying `p` sits in `a + b` exactly when it sits in `a`
/// or in `b`.
pub proof fn lemma_has_where_append<T>(a: Seq<T>, b: Seq<T>, p: spec_fn(T) -> bool)
    ensures
        has_where(a + b, p) == (has_where(a, p) || has_where(b, p)),
{
    if has_where(a, p) {
        let i = choose|i: int| 0 <= i < a.len() && p(a[i]);
        assert(p((a + b)[i]));
    }
    if has_where(b, p) {
        let i = choose|i: int| 0 <= i < b.len() && p(b[i]);
        assert(p((a + b)[a.len() + i]));
    }
    if has_where(a + b, p) {
        let i = choose|i: int| 0 <= i < (a + b).len() && p((a + b)[i]);
        if i < a.len() {
            assert(p(a[i]));
        } else {
            assert(p(b[i - a.len()]));
        }
    }
}

/// Being a prefix is transitive.
pub proof fn lemma_prefix_transitive<T>(a: Seq<T>, b: Seq<T>, c: Seq<T>)
    requires
        a.is_prefix_of(b),
        b.is_prefix_of(c),
    ensures
        a.is_prefix_of(c),
{
    assert(a =~= c.take(a.len() as int));
}

/// Any sequence is a prefix of itself extended.
pub proof fn lemma_prefix_of_append<T>(a: Seq<T>, b: Seq<T>)
    ensures
        a.is_prefix_of(a + b),
{
    assert(a =~= (a + b).take(a.len() as int));
}

/// Mapping a sequence commutes with appending one element.
pub proof fn lemma_map_values_push<A, B>(s: Seq<A>, f: spec_fn(A) -> B, x: A)
    ensures
        s.push(x).map_values(f) == s.map_values(f).push(f(x)),
{
    assert_seqs_equal!(s.push(x).map_values(f) == s.map_values(f).push(f(x)));
}

/// Mapping a sequence commutes with replacing one element.
pub proof fn lemma_map_values_update<A, B>(s: Seq<A>, f: spec_fn(A) -> B, i: int, x: A)
    requires
        0 <= i < s.len(),
    ensures
        s.update(i, x).map_values(f) == s.map_values(f).update(i, f(x)),
{
    assert_seqs_equal!(s.update(i, x).map_values(f) == s.map_values(f).update(i, f(x)));
}

/// Mapping a sequence commutes with dropping the last element.
pub proof fn lemma_map_values_drop_last<A, B>(s: Seq<A>, f: spec_fn(A) -> B)
    requires
        s.len() > 0,
    ensures
        s.drop_last().map_values(f) == s.map_values(f).drop_last(),
{
    assert_seqs_equal!(s.drop_last().map_values(f) == s.map_values(f).drop_last());
}

} // verus!
