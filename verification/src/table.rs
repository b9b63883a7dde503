//! A table from text keys to values: each key once, entries kept in the order in
//! which their keys came in.
use crate::text::same_text;
use vstd::prelude::*;

verus! {

/// Entries with text keys.
#[derive(Debug)]
pub struct Table<V> {
    entries: Vec<(String, V)>,
}

/// Row `i` is the first with key `k`.
pub open spec fn first_at<T>(s: Seq<(Seq<char>, T)>, k: Seq<char>, i: int) -> bool {
    &&& 0 <= i < s.len()
    &&& s[i].0 == k
    &&& forall|j: int| 0 <= j < i ==> (#[trigger] s[j]).0 != k
}

/// Some row has key `k`.
pub open spec fn has_key<T>(s: Seq<(Seq<char>, T)>, k: Seq<char>) -> bool {
    exists|i: int| 0 <= i < s.len() && (#[trigger] s[i]).0 == k
}

/// The row of key `k`.
pub open spec fn row_of<T>(s: Seq<(Seq<char>, T)>, k: Seq<char>) -> int {
    choose|i: int| first_at(s, k, i)
}

/// The value under key `k`.
pub open spec fn lookup<T>(s: Seq<(Seq<char>, T)>, k: Seq<char>) -> Option<T> {
    if has_key(s, k) {
        Some(s[row_of(s, k)].1)
    } else {
        None
    }
}

/// The rows once `v` is put under `k`: in place of the value there, or as a new last row.
pub open spec fn stored<T>(s: Seq<(Seq<char>, T)>, k: Seq<char>, v: T) -> Seq<(Seq<char>, T)> {
    if has_key(s, k) {
        s.update(row_of(s, k), (k, v))
    } else {
        s.push((k, v))
    }
}

/// The rows once key `k` is taken out.
pub open spec fn dropped<T>(s: Seq<(Seq<char>, T)>, k: Seq<char>) -> Seq<(Seq<char>, T)> {
    if has_key(s, k) {
        s.remove(row_of(s, k))
    } else {
        s
    }
}

/// No key occurs twice.
pub open spec fn distinct_keys<T>(s: Seq<(Seq<char>, T)>) -> bool {
    forall|i: int, j: int|
        0 <= i < s.len() && 0 <= j < s.len() && i != j ==> (#[trigger] s[i]).0 != (#[trigger] s[j]).0
}

/// The rows whose key and value satisfy `keep`, in order.
pub open spec fn kept<T>(
    s: Seq<(Seq<char>, T)>,
    keep: spec_fn(Seq<char>, T) -> bool,
) -> Seq<(Seq<char>, T)>
    decreases s.len(),
{
    if s.len() == 0 {
        s
    } else if keep(s.last().0, s.last().1) {
        kept(s.drop_last(), keep).push(s.last())
    } else {
        kept(s.drop_last(), keep)
    }
}

/// The rows with every value put through `f`.
pub open spec fn mapped<T>(s: Seq<(Seq<char>, T)>, f: spec_fn(Seq<char>, T) -> T) -> Seq<
    (Seq<char>, T),
> {
    Seq::new(s.len(), |i: int| (s[i].0, f(s[i].0, s[i].1)))
}

/// The first row whose value satisfies `p`.
pub open spec fn first_where<T>(s: Seq<(Seq<char>, T)>, p: spec_fn(T) -> bool) -> Option<int>
    decreases s.len(),
{
    if s.len() == 0 {
        None
    } else {
        match first_where(s.drop_last(), p) {
            Some(i) => Some(i),
            None => if p(s.last().1) {
                Some(s.len() - 1)
            } else {
                None
            },
        }
    }
}

/// A first row of a prefix is the first row of all, and satisfies the condition.
pub proof fn lemma_first_where<T>(s: Seq<(Seq<char>, T)>, p: spec_fn(T) -> bool, n: int)
    requires
        0 <= n <= s.len(),
    ensures
        first_where(s.take(n), p) is Some ==> first_where(s, p) == first_where(s.take(n), p),
        first_where(s.take(n), p) is Some ==> 0 <= first_where(s.take(n), p)->0 < n && p(
            s[first_where(s.take(n), p)->0].1,
        ),
    decreases s.len(), n,
{
    if n < s.len() {
        assert(s.drop_last().take(n) =~= s.take(n));
        lemma_first_where(s.drop_last(), p, n);
    } else {
        assert(s.take(n) =~= s);
        if n > 0 {
            lemma_first_where(s.drop_last(), p, n - 1);
            assert(s.drop_last().take(n - 1) =~= s.drop_last());
        }
    }
}

/// Some row has a value that satisfies `p`.
pub open spec fn any_value<T>(s: Seq<(Seq<char>, T)>, p: spec_fn(T) -> bool) -> bool {
    exists|i: int| 0 <= i < s.len() && p((#[trigger] s[i]).1)
}

/// The first row of a key is the only first row.
pub proof fn lemma_row_of<T>(s: Seq<(Seq<char>, T)>, k: Seq<char>, i: int)
    requires
        first_at(s, k, i),
    ensures
        has_key(s, k),
        row_of(s, k) == i,
        lookup(s, k) == Some(s[i].1),
{
    let c = row_of(s, k);
    assert(first_at(s, k, c));
    if c < i {
        assert(s[c].0 != k);
    }
    if i < c {
        assert(s[i].0 != k);
    }
}

/// A key that occurs has a first row.
pub proof fn lemma_has_row<T>(s: Seq<(Seq<char>, T)>, k: Seq<char>)
    requires
        has_key(s, k),
    ensures
        first_at(s, k, row_of(s, k)),
{
    let i = choose|i: int| 0 <= i < s.len() && (#[trigger] s[i]).0 == k;
    lemma_first_below(s, k, i);
}

proof fn lemma_first_below<T>(s: Seq<(Seq<char>, T)>, k: Seq<char>, i: int)
    requires
        0 <= i < s.len(),
        s[i].0 == k,
    ensures
        exists|j: int| first_at(s, k, j),
    decreases i,
{
    if exists|j: int| 0 <= j < i && (#[trigger] s[j]).0 == k {
        let j = choose|j: int| 0 <= j < i && (#[trigger] s[j]).0 == k;
        lemma_first_below(s, k, j);
    } else {
        assert(first_at(s, k, i));
    }
}

/// What is read back after a value is put under a key: that value under the key, and
/// what was there under every other key.
pub proof fn lemma_lookup_stored<T>(s: Seq<(Seq<char>, T)>, k: Seq<char>, v: T, q: Seq<char>)
    ensures
        lookup(stored(s, k, v), q) == (if q == k {
            Some(v)
        } else {
            lookup(s, q)
        }),
        has_key(stored(s, k, v), q) == (q == k || has_key(s, q)),
{
    let t = stored(s, k, v);
    if has_key(s, k) {
        lemma_has_row(s, k);
        let r = row_of(s, k);
        if q == k {
            assert(first_at(t, q, r));
            lemma_row_of(t, q, r);
        } else if has_key(s, q) {
            lemma_has_row(s, q);
            let i = row_of(s, q);
            assert(first_at(t, q, i));
            lemma_row_of(t, q, i);
        } else if has_key(t, q) {
            lemma_has_row(t, q);
            assert(s[row_of(t, q)].0 == q);
        }
    } else {
        if q == k {
            assert(first_at(t, q, s.len() as int));
            lemma_row_of(t, q, s.len() as int);
        } else if has_key(s, q) {
            lemma_has_row(s, q);
            let i = row_of(s, q);
            assert(first_at(t, q, i));
            lemma_row_of(t, q, i);
        } else if has_key(t, q) {
            lemma_has_row(t, q);
            assert(s[row_of(t, q)].0 == q);
        }
    }
}

/// What is read back after a key is taken out: nothing under the key, and what was there
/// under every other key.
pub proof fn lemma_lookup_dropped<T>(s: Seq<(Seq<char>, T)>, k: Seq<char>, q: Seq<char>)
    requires
        distinct_keys(s),
    ensures
        lookup(dropped(s, k), q) == (if q == k {
            None
        } else {
            lookup(s, q)
        }),
        has_key(dropped(s, k), q) == (q != k && has_key(s, q)),
{
    let t = dropped(s, k);
    if has_key(s, k) {
        lemma_has_row(s, k);
        let r = row_of(s, k);
        if q == k {
            if has_key(t, q) {
                lemma_has_row(t, q);
                let i = row_of(t, q);
                if i < r {
                    assert(t[i] == s[i]);
                } else {
                    assert(t[i] == s[i + 1]);
                }
            }
        } else {
            if has_key(s, q) {
                lemma_has_row(s, q);
                let i = row_of(s, q);
                let j = if i < r {
                    i
                } else {
                    i - 1
                };
                assert(t[j] == s[i]);
                assert forall|h: int| 0 <= h < j implies (#[trigger] t[h]).0 != q by {
                    assert(t[h] == s[h] || t[h] == s[h + 1]);
                }
                assert(first_at(t, q, j));
                lemma_row_of(t, q, j);
            } else if has_key(t, q) {
                lemma_has_row(t, q);
                let i = row_of(t, q);
                if i < r {
                    assert(t[i] == s[i]);
                } else {
                    assert(t[i] == s[i + 1]);
                }
            }
        }
    }
}

/// Putting a value under a key keeps the keys distinct.
pub proof fn storing_keeps_keys_distinct<T>(s: Seq<(Seq<char>, T)>, k: Seq<char>, v: T)
    requires
        distinct_keys(s),
    ensures
        distinct_keys(stored(s, k, v)),
{
    if has_key(s, k) {
        lemma_has_row(s, k);
    }
}

/// Taking a key out keeps the keys distinct.
pub proof fn dropping_keeps_keys_distinct<T>(s: Seq<(Seq<char>, T)>, k: Seq<char>)
    requires
        distinct_keys(s),
    ensures
        distinct_keys(dropped(s, k)),
{
    if has_key(s, k) {
        lemma_has_row(s, k);
    }
}

/// Putting a value under a new key and taking that key out changes nothing.
pub proof fn lemma_dropped_undoes_stored<T>(s: Seq<(Seq<char>, T)>, k: Seq<char>, v: T)
    requires
        !has_key(s, k),
    ensures
        dropped(stored(s, k, v), k) == s,
{
    let t = stored(s, k, v);
    assert(first_at(t, k, s.len() as int));
    lemma_row_of(t, k, s.len() as int);
    assert(t.remove(s.len() as int) =~= s);
}

/// One more row to filter.
pub proof fn lemma_kept_step<T>(
    s: Seq<(Seq<char>, T)>,
    keep: spec_fn(Seq<char>, T) -> bool,
    n: int,
)
    requires
        0 <= n < s.len(),
    ensures
        kept(s.take(n + 1), keep) == (if keep(s[n].0, s[n].1) {
            kept(s.take(n), keep).push(s[n])
        } else {
            kept(s.take(n), keep)
        }),
{
    assert(s.take(n + 1).drop_last() =~= s.take(n));
    assert(s.take(n + 1).last() == s[n]);
}

impl<V: View> View for Table<V> {
    type V = Seq<(Seq<char>, V::V)>;

    open spec fn view(&self) -> Seq<(Seq<char>, V::V)> {
        self.rows()
    }
}

impl<V> Table<V> {
    /// No key occurs twice.
    #[verifier::type_invariant]
    spec fn keys_are_distinct(self) -> bool {
        forall|i: int, j: int|
            0 <= i < self.entries@.len() && 0 <= j < self.entries@.len() && i != j
                ==> (#[trigger] self.entries@[i]).0@ != (#[trigger] self.entries@[j]).0@
    }
}

impl<V: View> Table<V> {
    /// The keys and values, oldest key first.
    pub closed spec fn rows(&self) -> Seq<(Seq<char>, V::V)> {
        Seq::new(self.entries@.len(), |i: int| (self.entries@[i].0@, self.entries@[i].1@))
    }

    /// An empty table.
    pub fn new() -> (r: Table<V>)
        ensures
            r.rows() == Seq::<(Seq<char>, V::V)>::empty(),
    {
        let r = Table { entries: Vec::new() };
        assert(r.rows() =~= Seq::<(Seq<char>, V::V)>::empty());
        r
    }

    /// The number of entries; each key counts once.
    pub fn len(&self) -> (r: usize)
        ensures
            r == self.rows().len(),
            distinct_keys(self.rows()),
    {
        proof {
            use_type_invariant(self);
        }
        self.entries.len()
    }

    /// The row of `key`, or the number of rows when there is none.
    pub fn find(&self, key: &str) -> (r: usize)
        ensures
            r <= self.rows().len(),
            has_key(self.rows(), key@) == (r < self.rows().len()),
            r < self.rows().len() ==> first_at(self.rows(), key@, r as int) && r == row_of(
                self.rows(),
                key@,
            ) && lookup(self.rows(), key@) == Some(self.rows()[r as int].1),
    {
        let mut i: usize = 0;
        while i < self.entries.len()
            invariant
                i <= self.entries@.len(),
                forall|j: int| 0 <= j < i ==> (#[trigger] self.rows()[j]).0 != key@,
            decreases self.entries@.len() - i,
        {
            assert(self.rows()[i as int].0 == self.entries@[i as int].0@);
            if same_text(self.entries[i].0.as_str(), key) {
                proof {
                    lemma_row_of(self.rows(), key@, i as int);
                }
                return i;
            }
            i += 1;
        }
        i
    }

    /// Whether `key` is in the table.
    pub fn contains_key(&self, key: &str) -> (r: bool)
        ensures
            r == has_key(self.rows(), key@),
    {
        self.find(key) < self.entries.len()
    }

    /// The value under `key`.
    pub fn get(&self, key: &str) -> (r: Option<&V>)
        ensures
            r is Some <==> has_key(self.rows(), key@),
            r is Some ==> lookup(self.rows(), key@) == Some(r->0@),
            r is None ==> lookup(self.rows(), key@) is None,
    {
        let i: usize = self.find(key);
        if i < self.entries.len() {
            Some(&self.entries[i].1)
        } else {
            None
        }
    }

    /// The key of row `i`.
    pub fn key_at(&self, i: usize) -> (r: &String)
        requires
            i < self.rows().len(),
        ensures
            r@ == self.rows()[i as int].0,
    {
        &self.entries[i].0
    }

    /// The value of row `i`.
    pub fn value_at(&self, i: usize) -> (r: &V)
        requires
            i < self.rows().len(),
        ensures
            r@ == self.rows()[i as int].1,
    {
        &self.entries[i].1
    }

    /// Gives the rows out, leaving an empty table.
    fn take_entries(&mut self) -> (r: Vec<(String, V)>)
        ensures
            r@ == old(self).entries@,
            old(self).keys_are_distinct(),
    {
        let mut t: Table<V> = Table { entries: Vec::new() };
        core::mem::swap(self, &mut t);
        proof {
            use_type_invariant(&t);
        }
        t.entries
    }

    /// Puts `v` in row `i`.
    pub fn set_at(&mut self, i: usize, v: V)
        requires
            i < old(self).rows().len(),
        ensures
            final(self).rows() == old(self).rows().update(
                i as int,
                (old(self).rows()[i as int].0, v@),
            ),
    {
        let _ = self.replace_at(i, v);
    }

    /// Puts `v` in row `i`, giving back what was there.
    pub fn replace_at(&mut self, i: usize, v: V) -> (r: V)
        requires
            i < old(self).rows().len(),
        ensures
            final(self).rows() == old(self).rows().update(
                i as int,
                (old(self).rows()[i as int].0, v@),
            ),
            r@ == old(self).rows()[i as int].1,
    {
        let ghost before = self.rows();
        let mut entries: Vec<(String, V)> = self.take_entries();
        let ghost was = entries@;
        let (key, r) = entries.remove(i);
        entries.insert(i, (key, v));
        assert(entries@ =~= was.update(i as int, (was[i as int].0, v)));
        *self = Table { entries };
        assert(self.rows() =~= before.update(i as int, (before[i as int].0, v@)));
        r
    }

    /// Puts `v` under `key`.
    pub fn insert(&mut self, key: String, v: V)
        ensures
            final(self).rows() == stored(old(self).rows(), key@, v@),
    {
        let ghost before = self.rows();
        let i: usize = self.find(key.as_str());
        if i < self.entries.len() {
            self.set_at(i, v);
        } else {
            let mut entries: Vec<(String, V)> = self.take_entries();
            proof {
                assert forall|j: int| 0 <= j < entries@.len() implies (
                #[trigger] entries@[j]).0@ != key@ by {
                    assert(before[j].0 == entries@[j].0@);
                }
            }
            entries.push((key, v));
            *self = Table { entries };
        }
        assert(self.rows() =~= stored(before, key@, v@));
    }

    /// Takes row `i` out.
    pub fn remove_at(&mut self, i: usize) -> (r: V)
        requires
            i < old(self).rows().len(),
        ensures
            final(self).rows() == old(self).rows().remove(i as int),
            r@ == old(self).rows()[i as int].1,
    {
        let ghost before = self.rows();
        let mut entries: Vec<(String, V)> = self.take_entries();
        let (_, v) = entries.remove(i);
        *self = Table { entries };
        assert(self.rows() =~= before.remove(i as int));
        v
    }

    /// Takes `key` out, giving back its value.
    pub fn remove(&mut self, key: &str) -> (r: Option<V>)
        ensures
            final(self).rows() == dropped(old(self).rows(), key@),
            r is Some <==> has_key(old(self).rows(), key@),
            r is Some ==> lookup(old(self).rows(), key@) == Some(r->0@),
            r is None ==> *final(self) == *old(self),
    {
        let i: usize = self.find(key);
        if i < self.entries.len() {
            Some(self.remove_at(i))
        } else {
            None
        }
    }
}

/// Filtering keeps the rows that fit, and no others.
pub proof fn filtering_keeps_what_fits<T>(
    s: Seq<(Seq<char>, T)>,
    keep: spec_fn(Seq<char>, T) -> bool,
    x: (Seq<char>, T),
)
    ensures
        kept(s, keep).contains(x) <==> s.contains(x) && keep(x.0, x.1),
    decreases s.len(),
{
    if s.len() > 0 {
        let h = s.drop_last();
        filtering_keeps_what_fits(h, keep, x);
        let k = kept(h, keep);
        if s.contains(x) {
            let i = choose|i: int| 0 <= i < s.len() && s[i] == x;
            if i < h.len() {
                assert(h[i] == x);
            }
        }
        if h.contains(x) {
            let i = choose|i: int| 0 <= i < h.len() && h[i] == x;
            assert(s[i] == x);
        }
        assert(s[s.len() - 1] == s.last());
        if keep(s.last().0, s.last().1) {
            let n = k.push(s.last());
            if k.contains(x) {
                let i = choose|i: int| 0 <= i < k.len() && k[i] == x;
                assert(n[i] == x);
            }
            if n.contains(x) {
                let i = choose|i: int| 0 <= i < n.len() && n[i] == x;
                if i < k.len() {
                    assert(k[i] == x);
                }
            }
            assert(n[n.len() - 1] == s.last());
        }
    }
}

} // verus!
