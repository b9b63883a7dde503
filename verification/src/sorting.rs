//! Stable sorting of the values of a table.
use vstd::prelude::*;

verus! {

/// A strict order in which values may be equal: it never holds both ways, and "not after" is
/// transitive.
pub open spec fn orders<T>(before: spec_fn(T, T) -> bool) -> bool {
    &&& forall|a: T, b: T| #[trigger] before(a, b) ==> !before(b, a)
    &&& forall|a: T, b: T, c: T|
        !(#[trigger] before(b, a)) && !(#[trigger] before(c, b)) ==> !before(c, a)
}

/// A sorted list with one more value, after those that equal it.
pub open spec fn inserted<T>(before: spec_fn(T, T) -> bool, s: Seq<T>, v: T) -> Seq<T>
    decreases s.len(),
{
    if s.len() > 0 && before(v, s.last()) {
        inserted(before, s.drop_last(), v).push(s.last())
    } else {
        s.push(v)
    }
}

/// The values of rows, sorted; equal values keep the order of their rows.
pub open spec fn sorted<T>(before: spec_fn(T, T) -> bool, rows: Seq<(Seq<char>, T)>) -> Seq<T>
    decreases rows.len(),
{
    if rows.len() == 0 {
        Seq::empty()
    } else {
        inserted(before, sorted(before, rows.drop_last()), rows.last().1)
    }
}

/// The values of rows, in order.
pub open spec fn values_of<T>(rows: Seq<(Seq<char>, T)>) -> Seq<T> {
    Seq::new(rows.len(), |i: int| rows[i].1)
}

/// No value comes before one that it should follow.
pub open spec fn is_sorted<T>(before: spec_fn(T, T) -> bool, s: Seq<T>) -> bool {
    forall|i: int, j: int| 0 <= i < j < s.len() ==> !before(#[trigger] s[j], #[trigger] s[i])
}

proof fn lemma_inserted<T>(before: spec_fn(T, T) -> bool, s: Seq<T>, v: T)
    requires
        orders(before),
        is_sorted(before, s),
    ensures
        is_sorted(before, inserted(before, s, v)),
        inserted(before, s, v).to_multiset() == s.to_multiset().insert(v),
    decreases s.len(),
{
    broadcast use vstd::seq_lib::group_to_multiset_ensures;

    if s.len() > 0 && before(v, s.last()) {
        let h = s.drop_last();
        let t = inserted(before, h, v);
        let u = t.push(s.last());
        assert forall|i: int, j: int| 0 <= i < j < h.len() implies !before(
            #[trigger] h[j],
            #[trigger] h[i],
        ) by {
            assert(h[i] == s[i] && h[j] == s[j]);
        }
        lemma_inserted(before, h, v);
        assert(h.push(s.last()) =~= s);
        assert forall|i: int, j: int| 0 <= i < j < u.len() implies !before(
            #[trigger] u[j],
            #[trigger] u[i],
        ) by {
            if j < t.len() {
                assert(u[i] == t[i] && u[j] == t[j]);
            } else {
                assert(u[i] == t[i]);
                assert(t.contains(t[i]));
                assert(h.to_multiset().insert(v).count(t[i]) > 0);
                if t[i] != v {
                    assert(h.contains(t[i]));
                    let k = choose|k: int| 0 <= k < h.len() && h[k] == t[i];
                    assert(s[k] == t[i]);
                    assert(!before(s[s.len() - 1], s[k]));
                }
            }
        }
        assert(u.to_multiset() =~= s.to_multiset().insert(v));
    } else {
        let u = s.push(v);
        assert forall|i: int, j: int| 0 <= i < j < u.len() implies !before(
            #[trigger] u[j],
            #[trigger] u[i],
        ) by {
            if j < s.len() {
                assert(u[i] == s[i] && u[j] == s[j]);
            } else {
                assert(u[i] == s[i]);
                if i < s.len() - 1 {
                    assert(!before(s[s.len() - 1], s[i]));
                }
            }
        }
    }
}

/// Sorting keeps every value, as often as it occurs, and puts them in order.
pub proof fn sorting_sorts<T>(before: spec_fn(T, T) -> bool, rows: Seq<(Seq<char>, T)>)
    requires
        orders(before),
    ensures
        sorted(before, rows).to_multiset() == values_of(rows).to_multiset(),
        is_sorted(before, sorted(before, rows)),
    decreases rows.len(),
{
    broadcast use vstd::seq_lib::group_to_multiset_ensures;

    if rows.len() > 0 {
        let h = rows.drop_last();
        sorting_sorts(before, h);
        lemma_inserted(before, sorted(before, h), rows.last().1);
        assert(values_of(h).push(rows.last().1) =~= values_of(rows));
    } else {
        assert(values_of(rows) =~= Seq::empty());
    }
}

} // verus!
