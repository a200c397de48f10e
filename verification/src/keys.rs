//! Keys that are compared by their mathematical value, and the list-backed
//! sets and maps that the rest of the library keeps them in.
//!
//! A set is a `Vec` of keys in which no value occurs twice; a map is a `Vec`
//! of pairs whose first components are such a set. Both are specified over
//! the sequence of values that they hold (`deep_view`).

use vstd::prelude::*;

verus! {

/// A value that can be compared and copied by its mathematical value.
pub trait Key: DeepView + Sized {
    /// Equality of the values.
    fn key_eq(&self, other: &Self) -> (r: bool)
        ensures
            r == (self.deep_view() == other.deep_view()),
    ;

    /// A copy with the same value.
    fn key_clone(&self) -> (r: Self)
        ensures
            r.deep_view() == self.deep_view(),
    ;
}

/// A value that can be copied by its mathematical value.
pub trait DeepClone: DeepView + Sized {
    /// A copy with the same value.
    fn deep_clone(&self) -> (r: Self)
        ensures
            r.deep_view() == self.deep_view(),
    ;
}

impl<A: DeepClone, B: DeepClone> DeepClone for (A, B) {
    fn deep_clone(&self) -> (r: Self) {
        (self.0.deep_clone(), self.1.deep_clone())
    }
}

impl Key for String {
    fn key_eq(&self, other: &Self) -> (r: bool) {
        *self == *other
    }

    fn key_clone(&self) -> (r: Self) {
        self.clone()
    }
}

/// Some entry of `s` has the key `k`.
pub open spec fn has_key<A, B>(s: Seq<(A, B)>, k: A) -> bool {
    exists|i: int| 0 <= i < s.len() && (#[trigger] s[i]).0 == k
}

/// `i` is the first position of `s` that holds the key `k`.
pub open spec fn is_first_index<A, B>(s: Seq<(A, B)>, k: A, i: int) -> bool {
    &&& 0 <= i < s.len()
    &&& s[i].0 == k
    &&& forall|j: int| 0 <= j < i ==> (#[trigger] s[j]).0 != k
}

/// The first position of `s` that holds the key `k`, where there is one.
pub open spec fn first_index<A, B>(s: Seq<(A, B)>, k: A) -> int {
    choose|i: int| is_first_index(s, k, i)
}

/// What `s` maps the key `k` to: the value of the first entry with that key.
pub open spec fn lookup<A, B>(s: Seq<(A, B)>, k: A) -> Option<B> {
    if has_key(s, k) {
        Some(s[first_index(s, k)].1)
    } else {
        None
    }
}

/// No key occurs in two entries of `s`.
pub open spec fn distinct_keys<A, B>(s: Seq<(A, B)>) -> bool {
    forall|i: int, j: int|
        0 <= i < j < s.len() ==> (#[trigger] s[i]).0 != (#[trigger] s[j]).0
}

/// `s` with the key `k` mapped to `v`: the first entry with that key is
/// replaced, and where there is none the pair is appended.
pub open spec fn put<A, B>(s: Seq<(A, B)>, k: A, v: B) -> Seq<(A, B)> {
    if has_key(s, k) {
        s.update(first_index(s, k), (k, v))
    } else {
        s.push((k, v))
    }
}

/// `s` with `a` as a member: appended where it is not one yet.
pub open spec fn with_member<A>(s: Seq<A>, a: A) -> Seq<A> {
    if s.contains(a) {
        s
    } else {
        s.push(a)
    }
}

/// `s` with every element of `t` as a member, in the order of `t`.
pub open spec fn with_members<A>(s: Seq<A>, t: Seq<A>) -> Seq<A>
    decreases t.len(),
{
    if t.len() == 0 {
        s
    } else {
        with_member(with_members(s, t.drop_last()), t.last())
    }
}

/// A first position is the only first position.
pub proof fn lemma_first_index_unique<A, B>(s: Seq<(A, B)>, k: A, i: int)
    requires
        is_first_index(s, k, i),
    ensures
        has_key(s, k),
        first_index(s, k) == i,
        lookup(s, k) == Some(s[i].1),
{
    let j = first_index(s, k);
    assert(is_first_index(s, k, j));
    assert(s[i].0 == k);
    if j < i {
        assert(s[j].0 != k);
    }
    if i < j {
        assert(s[i].0 != k);
    }
}

/// Where a key occurs, there is a first position of it.
pub proof fn lemma_has_key_first<A, B>(s: Seq<(A, B)>, k: A)
    requires
        has_key(s, k),
    ensures
        is_first_index(s, k, first_index(s, k)),
{
    let w = choose|i: int| 0 <= i < s.len() && (#[trigger] s[i]).0 == k;
    lemma_first_below(s, k, w);
}

/// Below a position that holds a key there is a first position that holds it.
proof fn lemma_first_below<A, B>(s: Seq<(A, B)>, k: A, w: int)
    requires
        0 <= w < s.len(),
        s[w].0 == k,
    ensures
        exists|i: int| is_first_index(s, k, i),
    decreases w,
{
    if exists|j: int| 0 <= j < w && (#[trigger] s[j]).0 == k {
        let j = choose|j: int| 0 <= j < w && (#[trigger] s[j]).0 == k;
        lemma_first_below(s, k, j);
    } else {
        assert(is_first_index(s, k, w));
    }
}

/// `put` keeps the keys distinct, keeps the other keys' values, and maps `k` to `v`.
pub proof fn lemma_put<A, B>(s: Seq<(A, B)>, k: A, v: B)
    requires
        distinct_keys(s),
    ensures
        distinct_keys(put(s, k, v)),
        lookup(put(s, k, v), k) == Some(v),
        forall|x: A| x != k ==> lookup(put(s, k, v), x) == lookup(s, x),
        forall|x: A| has_key(put(s, k, v), x) <==> x == k || has_key(s, x),
{
    let t = put(s, k, v);
    if has_key(s, k) {
        lemma_has_key_first(s, k);
        let i = first_index(s, k);
        assert(is_first_index(t, k, i)) by {
            assert forall|j: int| 0 <= j < i implies (#[trigger] t[j]).0 != k by {
                assert(s[j].0 != k);
            }
        }
        lemma_first_index_unique(t, k, i);
        assert forall|x: A| x != k implies lookup(t, x) == lookup(s, x) by {
            lemma_same_keys_lookup(s, t, x);
        }
        assert forall|x: A| has_key(t, x) <==> x == k || has_key(s, x) by {
            if has_key(t, x) {
                let j = choose|j: int| 0 <= j < t.len() && (#[trigger] t[j]).0 == x;
                assert(s[j].0 == x || x == k);
            }
            if has_key(s, x) {
                let j = choose|j: int| 0 <= j < s.len() && (#[trigger] s[j]).0 == x;
                assert(t[j].0 == x);
            }
        }
        assert forall|a: int, b: int| 0 <= a < b < t.len() implies (#[trigger] t[a]).0 != (
        #[trigger] t[b]).0 by {
            assert(s[a].0 != s[b].0);
        }
    } else {
        let i = s.len() as int;
        assert(is_first_index(t, k, i)) by {
            assert forall|j: int| 0 <= j < i implies (#[trigger] t[j]).0 != k by {
                assert(s[j].0 != k);
            }
        }
        lemma_first_index_unique(t, k, i);
        assert forall|x: A| x != k implies lookup(t, x) == lookup(s, x) by {
            if has_key(s, x) {
                lemma_has_key_first(s, x);
                let j = first_index(s, x);
                assert(is_first_index(t, x, j)) by {
                    assert forall|m: int| 0 <= m < j implies (#[trigger] t[m]).0 != x by {
                        assert(s[m].0 != x);
                    }
                }
                lemma_first_index_unique(t, x, j);
            } else {
                if has_key(t, x) {
                    let j = choose|j: int| 0 <= j < t.len() && (#[trigger] t[j]).0 == x;
                    assert(s[j].0 == x);
                }
            }
        }
        assert forall|x: A| has_key(t, x) <==> x == k || has_key(s, x) by {
            if has_key(t, x) && x != k {
                let j = choose|j: int| 0 <= j < t.len() && (#[trigger] t[j]).0 == x;
                assert(s[j].0 == x);
            }
            if has_key(s, x) {
                let j = choose|j: int| 0 <= j < s.len() && (#[trigger] s[j]).0 == x;
                assert(t[j].0 == x);
            }
            if x == k {
                assert(t[i].0 == k);
            }
        }
        assert forall|a: int, b: int| 0 <= a < b < t.len() implies (#[trigger] t[a]).0 != (
        #[trigger] t[b]).0 by {
            if b < s.len() {
                assert(s[a].0 != s[b].0);
            } else {
                assert(s[a].0 != k);
            }
        }
    }
}

/// Two lists with the same keys at the same positions look a key up at the
/// same position.
pub proof fn lemma_same_keys_lookup<A, B>(s: Seq<(A, B)>, t: Seq<(A, B)>, x: A)
    requires
        s.len() == t.len(),
        forall|j: int| 0 <= j < s.len() ==> (#[trigger] s[j]).0 == (#[trigger] t[j]).0,
        forall|j: int| 0 <= j < s.len() && (#[trigger] s[j]).0 == x ==> s[j].1 == t[j].1,
    ensures
        has_key(s, x) == has_key(t, x),
        lookup(s, x) == lookup(t, x),
{
    if has_key(s, x) {
        lemma_has_key_first(s, x);
        let j = first_index(s, x);
        assert(is_first_index(t, x, j)) by {
            assert(s[j].0 == t[j].0);
            assert forall|m: int| 0 <= m < j implies (#[trigger] t[m]).0 != x by {
                assert(s[m].0 == t[m].0);
            }
        }
        lemma_first_index_unique(t, x, j);
        lemma_first_index_unique(s, x, j);
    } else {
        if has_key(t, x) {
            let j = choose|j: int| 0 <= j < t.len() && (#[trigger] t[j]).0 == x;
            assert(s[j].0 == t[j].0);
        }
    }
}

/// `with_member` adds `a` and nothing else, and keeps a list free of duplicates.
pub proof fn lemma_with_member<A>(s: Seq<A>, a: A)
    ensures
        forall|x: A| with_member(s, a).contains(x) <==> x == a || s.contains(x),
        s.no_duplicates() ==> with_member(s, a).no_duplicates(),
{
    let t = with_member(s, a);
    assert forall|x: A| t.contains(x) <==> x == a || s.contains(x) by {
        if t.contains(x) {
            let j = choose|j: int| 0 <= j < t.len() && t[j] == x;
            if j < s.len() {
                assert(s[j] == x);
            }
        }
        if s.contains(x) {
            let j = choose|j: int| 0 <= j < s.len() && s[j] == x;
            assert(t[j] == x);
        }
        if x == a && !s.contains(a) {
            assert(t[s.len() as int] == a);
        }
    }
}

/// `with_members` adds the elements of `t` and nothing else, and keeps a
/// list free of duplicates.
pub proof fn lemma_with_members<A>(s: Seq<A>, t: Seq<A>)
    ensures
        forall|x: A| with_members(s, t).contains(x) <==> s.contains(x) || t.contains(x),
        s.no_duplicates() ==> with_members(s, t).no_duplicates(),
    decreases t.len(),
{
    if t.len() == 0 {
    } else {
        lemma_with_members(s, t.drop_last());
        lemma_with_member(with_members(s, t.drop_last()), t.last());
        assert forall|x: A| t.contains(x) <==> t.drop_last().contains(x) || x == t.last() by {
            if t.contains(x) {
                let j = choose|j: int| 0 <= j < t.len() && t[j] == x;
                if j < t.len() - 1 {
                    assert(t.drop_last()[j] == x);
                }
            }
            if t.drop_last().contains(x) {
                let j = choose|j: int| 0 <= j < t.drop_last().len() && t.drop_last()[j] == x;
                assert(t[j] == x);
            }
            if x == t.last() {
                assert(t[t.len() - 1] == x);
            }
        }
    }
}

/// Position of the first element of `items` with the value of `k`.
pub fn position<K: Key>(items: &Vec<K>, k: &K) -> (r: Option<usize>)
    ensures
        match r {
            Some(i) => i < items.len() && items.deep_view()[i as int] == k.deep_view()
                && forall|j: int| 0 <= j < i ==> items.deep_view()[j] != k.deep_view(),
            None => !items.deep_view().contains(k.deep_view()),
        },
{
    let mut i: usize = 0;
    while i < items.len()
        invariant
            i <= items.len(),
            forall|j: int| 0 <= j < i ==> items.deep_view()[j] != k.deep_view(),
        decreases items.len() - i,
    {
        if items[i].key_eq(k) {
            return Some(i);
        }
        i += 1;
    }
    None
}

/// Whether `items` holds the value of `k`.
pub fn contains<K: Key>(items: &Vec<K>, k: &K) -> (r: bool)
    ensures
        r == items.deep_view().contains(k.deep_view()),
{
    match position(items, k) {
        Some(i) => {
            assert(items.deep_view()[i as int] == k.deep_view());
            true
        },
        None => false,
    }
}

/// Makes `k` a member of `items`; says whether it was added.
pub fn insert_member<K: Key>(items: &mut Vec<K>, k: K) -> (added: bool)
    ensures
        final(items).deep_view() == with_member(old(items).deep_view(), k.deep_view()),
        added == !old(items).deep_view().contains(k.deep_view()),
{
    if contains(items, &k) {
        false
    } else {
        items.push(k);
        assert(items.deep_view() =~= old(items).deep_view().push(k.deep_view()));
        true
    }
}

/// Makes every element of `more` a member of `items`.
pub fn insert_members<K: Key>(items: &mut Vec<K>, more: &Vec<K>)
    ensures
        final(items).deep_view() == with_members(old(items).deep_view(), more.deep_view()),
{
    let mut i: usize = 0;
    while i < more.len()
        invariant
            i <= more.len(),
            items.deep_view() == with_members(
                old(items).deep_view(),
                more.deep_view().take(i as int),
            ),
        decreases more.len() - i,
    {
        proof {
            let t = more.deep_view().take(i + 1);
            assert(t.drop_last() =~= more.deep_view().take(i as int));
            assert(t.last() == more.deep_view()[i as int]);
        }
        insert_member(items, more[i].key_clone());
        i += 1;
    }
    assert(more.deep_view().take(more.len() as int) =~= more.deep_view());
}

/// A copy of a list of keys.
pub fn clone_keys<K: Key>(items: &Vec<K>) -> (r: Vec<K>)
    ensures
        r.deep_view() == items.deep_view(),
{
    let mut r: Vec<K> = Vec::new();
    let mut i: usize = 0;
    while i < items.len()
        invariant
            i <= items.len(),
            r.len() == i,
            forall|j: int| 0 <= j < i ==> r.deep_view()[j] == items.deep_view()[j],
        decreases items.len() - i,
    {
        r.push(items[i].key_clone());
        i += 1;
    }
    assert(r.deep_view() =~= items.deep_view());
    r
}

/// Position of the first entry of `entries` whose key has the value of `k`.
pub fn find<K: Key, X: DeepView>(entries: &Vec<(K, X)>, k: &K) -> (r: Option<usize>)
    ensures
        match r {
            Some(i) => is_first_index(entries.deep_view(), k.deep_view(), i as int),
            None => !has_key(entries.deep_view(), k.deep_view()),
        },
        r is Some <==> has_key(entries.deep_view(), k.deep_view()),
        r matches Some(i) ==> first_index(entries.deep_view(), k.deep_view()) == i,
{
    let mut i: usize = 0;
    while i < entries.len()
        invariant
            i <= entries.len(),
            forall|j: int| 0 <= j < i ==> (#[trigger] entries.deep_view()[j]).0 != k.deep_view(),
        decreases entries.len() - i,
    {
        if entries[i].0.key_eq(k) {
            proof {
                assert(entries.deep_view()[i as int].0 == k.deep_view());
                lemma_first_index_unique(entries.deep_view(), k.deep_view(), i as int);
            }
            return Some(i);
        }
        i += 1;
    }
    None
}

/// The children lists `children` with `child` as a child of `parent`.
pub open spec fn add_child<A>(children: Seq<(A, Seq<A>)>, parent: A, child: A) -> Seq<(A, Seq<A>)> {
    put(
        children,
        parent,
        with_member(
            match lookup(children, parent) {
                Some(c) => c,
                None => Seq::empty(),
            },
            child,
        ),
    )
}

/// The children lists `children` with every key of `more` as a child of `parent`.
pub open spec fn add_children<A>(children: Seq<(A, Seq<A>)>, parent: A, more: Seq<A>) -> Seq<
    (A, Seq<A>),
> {
    put(
        children,
        parent,
        with_members(
            match lookup(children, parent) {
                Some(c) => c,
                None => Seq::empty(),
            },
            more,
        ),
    )
}

/// `put` changes one entry or appends one.
pub proof fn lemma_put_entries<A, B>(s: Seq<(A, B)>, k: A, v: B)
    ensures
        s.len() <= put(s, k, v).len() <= s.len() + 1,
        forall|i: int|
            0 <= i < put(s, k, v).len() ==> (#[trigger] put(s, k, v)[i]) == (k, v) || (i < s.len()
                && put(s, k, v)[i] == s[i]),
        forall|i: int|
            0 <= i < s.len() ==> (#[trigger] put(s, k, v)[i]).0 == s[i].0,
        has_key(s, k) ==> put(s, k, v).len() == s.len(),
        !has_key(s, k) ==> put(s, k, v) == s.push((k, v)),
{
    if has_key(s, k) {
        lemma_has_key_first(s, k);
    }
}

/// Whoever is a child after `add_children` was one before or is among the added.
pub proof fn lemma_add_children_members<A>(
    children: Seq<(A, Seq<A>)>,
    parent: A,
    more: Seq<A>,
)
    requires
        distinct_keys(children),
    ensures
        distinct_keys(add_children(children, parent, more)),
        forall|i: int, c: A|
            0 <= i < add_children(children, parent, more).len() && (#[trigger] add_children(
                children,
                parent,
                more,
            )[i].1.contains(c)) ==> more.contains(c) || exists|j: int|
                0 <= j < children.len() && (#[trigger] children[j]).1.contains(c),
{
    let old_row = match lookup(children, parent) {
        Some(c) => c,
        None => Seq::empty(),
    };
    let row = with_members(old_row, more);
    let t = add_children(children, parent, more);
    lemma_put(children, parent, row);
    lemma_put_entries(children, parent, row);
    lemma_with_members(old_row, more);
    if has_key(children, parent) {
        lemma_has_key_first(children, parent);
    }
    assert forall|i: int, c: A| 0 <= i < t.len() && (#[trigger] t[i].1.contains(c)) implies more.contains(
        c,
    ) || exists|j: int| 0 <= j < children.len() && (#[trigger] children[j]).1.contains(c) by {
        if t[i] == (parent, row) {
            if !more.contains(c) {
                assert(old_row.contains(c));
                let f = first_index(children, parent);
                assert(children[f].1.contains(c));
            }
        } else {
            assert(children[i].1.contains(c));
        }
    }
}

/// Whoever is a child after `add_child` was one before or is the added child.
pub proof fn lemma_add_child_members<A>(children: Seq<(A, Seq<A>)>, parent: A, child: A)
    requires
        distinct_keys(children),
    ensures
        distinct_keys(add_child(children, parent, child)),
        forall|i: int, c: A|
            0 <= i < add_child(children, parent, child).len() && (#[trigger] add_child(
                children,
                parent,
                child,
            )[i].1.contains(c)) ==> c == child || exists|j: int|
                0 <= j < children.len() && (#[trigger] children[j]).1.contains(c),
{
    let old_row = match lookup(children, parent) {
        Some(c) => c,
        None => Seq::empty(),
    };
    let row = with_member(old_row, child);
    let t = add_child(children, parent, child);
    lemma_put(children, parent, row);
    lemma_put_entries(children, parent, row);
    lemma_with_member(old_row, child);
    if has_key(children, parent) {
        lemma_has_key_first(children, parent);
    }
    assert forall|i: int, c: A| 0 <= i < t.len() && (#[trigger] t[i].1.contains(c)) implies c
        == child || exists|j: int|
        0 <= j < children.len() && (#[trigger] children[j]).1.contains(c) by {
        if t[i] == (parent, row) {
            if c != child {
                assert(old_row.contains(c));
                let f = first_index(children, parent);
                assert(children[f].1.contains(c));
            }
        } else {
            assert(children[i].1.contains(c));
        }
    }
}

/// `children` lists `c` as a child of `p`.
pub open spec fn lists_child<A>(children: Seq<(A, Seq<A>)>, p: A, c: A) -> bool {
    exists|k: int|
        0 <= k < children.len() && (#[trigger] children[k]).0 == p && children[k].1.contains(c)
}

/// After `add_child`, the children that are listed are those that were
/// listed and the added child of its parent.
pub proof fn lemma_add_child_lists<A>(children: Seq<(A, Seq<A>)>, parent: A, child: A, p: A, c: A)
    ensures
        lists_child(add_child(children, parent, child), p, c) <==> lists_child(children, p, c) || (p
            == parent && c == child),
{
    let old_row = match lookup(children, parent) {
        Some(r) => r,
        None => Seq::empty(),
    };
    let row = with_member(old_row, child);
    let t = add_child(children, parent, child);
    lemma_put_entries(children, parent, row);
    lemma_with_member(old_row, child);
    if has_key(children, parent) {
        lemma_has_key_first(children, parent);
    }
    if lists_child(t, p, c) {
        let k = choose|k: int| 0 <= k < t.len() && (#[trigger] t[k]).0 == p && t[k].1.contains(c);
        if t[k] == (parent, row) {
            if c != child {
                assert(old_row.contains(c));
                let f = first_index(children, parent);
                assert(children[f].0 == p && children[f].1.contains(c));
            }
        } else {
            assert(children[k].0 == p && children[k].1.contains(c));
        }
    }
    if lists_child(children, p, c) {
        let k = choose|k: int|
            0 <= k < children.len() && (#[trigger] children[k]).0 == p && children[k].1.contains(c);
        if has_key(children, parent) && k == first_index(children, parent) {
            assert(t[k] == (parent, row));
            assert(t[k].0 == p && t[k].1.contains(c));
        } else {
            assert(t[k] == children[k]);
            assert(t[k].0 == p && t[k].1.contains(c));
        }
    }
    if p == parent && c == child {
        if has_key(children, parent) {
            let f = first_index(children, parent);
            assert(t[f] == (parent, row));
            assert(t[f].0 == p && t[f].1.contains(c));
        } else {
            let f = children.len() as int;
            assert(t[f] == (parent, row));
            assert(t[f].0 == p && t[f].1.contains(c));
        }
    }
}

/// After `add_children`, the children that are listed are those that were
/// listed and the added children of their parent.
pub proof fn lemma_add_children_lists<A>(
    children: Seq<(A, Seq<A>)>,
    parent: A,
    more: Seq<A>,
    p: A,
    c: A,
)
    ensures
        lists_child(add_children(children, parent, more), p, c) <==> lists_child(children, p, c)
            || (p == parent && more.contains(c)),
{
    let old_row = match lookup(children, parent) {
        Some(r) => r,
        None => Seq::empty(),
    };
    let row = with_members(old_row, more);
    let t = add_children(children, parent, more);
    lemma_put_entries(children, parent, row);
    lemma_with_members(old_row, more);
    if has_key(children, parent) {
        lemma_has_key_first(children, parent);
    }
    if lists_child(t, p, c) {
        let k = choose|k: int| 0 <= k < t.len() && (#[trigger] t[k]).0 == p && t[k].1.contains(c);
        if t[k] == (parent, row) {
            if !more.contains(c) {
                assert(old_row.contains(c));
                let f = first_index(children, parent);
                assert(children[f].0 == p && children[f].1.contains(c));
            }
        } else {
            assert(children[k].0 == p && children[k].1.contains(c));
        }
    }
    if lists_child(children, p, c) {
        let k = choose|k: int|
            0 <= k < children.len() && (#[trigger] children[k]).0 == p && children[k].1.contains(c);
        if has_key(children, parent) && k == first_index(children, parent) {
            assert(t[k] == (parent, row));
            assert(t[k].0 == p && t[k].1.contains(c));
        } else {
            assert(t[k] == children[k]);
            assert(t[k].0 == p && t[k].1.contains(c));
        }
    }
    if p == parent && more.contains(c) {
        if has_key(children, parent) {
            let f = first_index(children, parent);
            assert(t[f] == (parent, row));
            assert(t[f].0 == p && t[f].1.contains(c));
        } else {
            let f = children.len() as int;
            assert(t[f] == (parent, row));
            assert(t[f].0 == p && t[f].1.contains(c));
        }
    }
}

/// Makes the keys of `more` children of `parent`.
pub fn insert_children<K: Key>(children: &mut Vec<(K, Vec<K>)>, parent: K, more: &Vec<K>)
    ensures
        final(children).deep_view() == add_children(
            old(children).deep_view(),
            parent.deep_view(),
            more.deep_view(),
        ),
{
    let ghost before = children.deep_view();
    match find(children, &parent) {
        Some(i) => {
            let mut row = clone_keys(&children[i].1);
            insert_members(&mut row, more);
            children[i] = (parent, row);
            assert(children.deep_view() =~= before.update(
                i as int,
                (parent.deep_view(), row.deep_view()),
            ));
        },
        None => {
            let mut row: Vec<K> = Vec::new();
            assert(row.deep_view() =~= Seq::<K::V>::empty());
            insert_members(&mut row, more);
            children.push((parent, row));
            assert(children.deep_view() =~= before.push((parent.deep_view(), row.deep_view())));
        },
    }
}

/// Makes `child` a child of `parent`.
pub fn insert_child<K: Key>(children: &mut Vec<(K, Vec<K>)>, parent: K, child: K)
    ensures
        final(children).deep_view() == add_child(
            old(children).deep_view(),
            parent.deep_view(),
            child.deep_view(),
        ),
{
    let ghost before = children.deep_view();
    match find(children, &parent) {
        Some(i) => {
            let mut row = clone_keys(&children[i].1);
            insert_member(&mut row, child);
            children[i] = (parent, row);
            assert(children.deep_view() =~= before.update(
                i as int,
                (parent.deep_view(), row.deep_view()),
            ));
        },
        None => {
            let mut row: Vec<K> = Vec::new();
            assert(row.deep_view() =~= Seq::<K::V>::empty());
            insert_member(&mut row, child);
            children.push((parent, row));
            assert(children.deep_view() =~= before.push((parent.deep_view(), row.deep_view())));
        },
    }
}

} // verus!
