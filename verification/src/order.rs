//! The order of texts, and lists kept in it.
//!
//! Texts are ordered as std orders strings: by the bytes of their UTF-8 encoding.
use crate::sequence::{first_index, lemma_first_index, lemma_first_index_is};
use vstd::prelude::*;
use vstd::utf8::{decode_utf8, encode_utf8, encode_utf8_decode_utf8};

verus! {

/// Lexicographic order of byte sequences.
pub open spec fn bytes_less(a: Seq<u8>, b: Seq<u8>) -> bool
    decreases a.len(),
{
    if b.len() == 0 {
        false
    } else if a.len() == 0 {
        true
    } else if a[0] != b[0] {
        a[0] < b[0]
    } else {
        bytes_less(a.drop_first(), b.drop_first())
    }
}

/// The order of texts.
pub open spec fn text_less(a: Seq<char>, b: Seq<char>) -> bool {
    bytes_less(encode_utf8(a), encode_utf8(b))
}

proof fn lemma_bytes_total(a: Seq<u8>, b: Seq<u8>)
    ensures
        !(bytes_less(a, b) && bytes_less(b, a)),
        a == b || bytes_less(a, b) || bytes_less(b, a),
        a == b ==> !bytes_less(a, b),
    decreases a.len(),
{
    if a.len() > 0 && b.len() > 0 && a[0] == b[0] {
        lemma_bytes_total(a.drop_first(), b.drop_first());
        if a.drop_first() == b.drop_first() {
            assert(a =~= seq![a[0]] + a.drop_first());
            assert(b =~= seq![b[0]] + b.drop_first());
        }
    } else if a.len() == 0 && b.len() == 0 {
        assert(a =~= b);
    }
}

proof fn lemma_bytes_transitive(a: Seq<u8>, b: Seq<u8>, c: Seq<u8>)
    requires
        bytes_less(a, b),
        bytes_less(b, c),
    ensures
        bytes_less(a, c),
    decreases a.len(),
{
    if a.len() > 0 && a[0] == b[0] && b[0] == c[0] {
        lemma_bytes_transitive(a.drop_first(), b.drop_first(), c.drop_first());
    }
}

/// The order of texts is total: of two texts, one comes first, or they are equal.
pub proof fn lemma_text_total(a: Seq<char>, b: Seq<char>)
    ensures
        !(text_less(a, b) && text_less(b, a)),
        a == b || text_less(a, b) || text_less(b, a),
        !text_less(a, a),
{
    lemma_bytes_total(encode_utf8(a), encode_utf8(b));
    lemma_bytes_total(encode_utf8(a), encode_utf8(a));
    if encode_utf8(a) == encode_utf8(b) {
        encode_utf8_decode_utf8(a);
        encode_utf8_decode_utf8(b);
        assert(a == decode_utf8(encode_utf8(a)));
    }
}

pub proof fn lemma_text_transitive(a: Seq<char>, b: Seq<char>, c: Seq<char>)
    requires
        text_less(a, b),
        text_less(b, c),
    ensures
        text_less(a, c),
{
    lemma_bytes_transitive(encode_utf8(a), encode_utf8(b), encode_utf8(c));
}

/// Whether one text comes before another.
pub fn text_before(a: &str, b: &str) -> (r: bool)
    ensures
        r == text_less(a@, b@),
{
    let x = a.as_bytes();
    let y = b.as_bytes();
    let mut i: usize = 0;
    assert(x@.skip(0) =~= x@);
    assert(y@.skip(0) =~= y@);
    while i < x.len() && i < y.len() && x[i] == y[i]
        invariant
            i <= x@.len(),
            i <= y@.len(),
            bytes_less(x@, y@) == bytes_less(x@.skip(i as int), y@.skip(i as int)),
        decreases x.len() - i,
    {
        assert(x@.skip(i as int).drop_first() =~= x@.skip(i + 1));
        assert(y@.skip(i as int).drop_first() =~= y@.skip(i + 1));
        i += 1;
    }
    if i >= y.len() {
        false
    } else if i >= x.len() {
        true
    } else {
        x[i] < y[i]
    }
}

// ---- Distinct texts in order -----------------------------------------------------------------

/// A text comes before another exactly where the bytes of its encoding are those of the other up
/// to some place, and there they end, or the byte is smaller.
pub proof fn law_texts_are_ordered_by_their_bytes(a: Seq<char>, b: Seq<char>)
    ensures
        text_less(a, b) <==> exists|k: int|
            0 <= k <= encode_utf8(a).len() && k < encode_utf8(b).len() && #[trigger] encode_utf8(
                a,
            ).take(k) == encode_utf8(b).take(k) && (k == encode_utf8(a).len() || encode_utf8(a)[k]
                < encode_utf8(b)[k]),
{
    lemma_bytes_differ(encode_utf8(a), encode_utf8(b));
}

proof fn lemma_bytes_differ(a: Seq<u8>, b: Seq<u8>)
    ensures
        bytes_less(a, b) <==> exists|k: int|
            0 <= k <= a.len() && k < b.len() && #[trigger] a.take(k) == b.take(k) && (k == a.len()
                || a[k] < b[k]),
    decreases a.len(),
{
    if a.len() > 0 && b.len() > 0 && a[0] == b[0] {
        let p = a.drop_first();
        let q = b.drop_first();
        lemma_bytes_differ(p, q);
        if bytes_less(p, q) {
            let k = choose|k: int|
                0 <= k <= p.len() && k < q.len() && #[trigger] p.take(k) == q.take(k) && (k
                    == p.len() || p[k] < q[k]);
            assert forall|i: int| 0 <= i < k + 1 implies a[i] == b[i] by {
                if i > 0 {
                    assert(p.take(k)[i - 1] == q.take(k)[i - 1]);
                }
            }
            assert(a.take(k + 1) =~= b.take(k + 1));
        }
        if exists|k: int|
            0 <= k <= a.len() && k < b.len() && #[trigger] a.take(k) == b.take(k) && (k == a.len()
                || a[k] < b[k]) {
            let k = choose|k: int|
                0 <= k <= a.len() && k < b.len() && #[trigger] a.take(k) == b.take(k) && (k
                    == a.len() || a[k] < b[k]);
            assert(k > 0);
            assert forall|i: int| 0 <= i < k - 1 implies p[i] == q[i] by {
                assert(a.take(k)[i + 1] == b.take(k)[i + 1]);
            }
            assert(p.take(k - 1) =~= q.take(k - 1));
        }
    } else {
        assert(a.take(0) =~= b.take(0));
        if exists|k: int|
            0 <= k <= a.len() && k < b.len() && #[trigger] a.take(k) == b.take(k) && (k == a.len()
                || a[k] < b[k]) {
            let k = choose|k: int|
                0 <= k <= a.len() && k < b.len() && #[trigger] a.take(k) == b.take(k) && (k
                    == a.len() || a[k] < b[k]);
            if k > 0 {
                assert(a.take(k)[0] == b.take(k)[0]);
            }
        }
    }
}

/// The predicate that a text does not come before `x`.
pub open spec fn not_before(x: Seq<char>) -> spec_fn(Seq<char>) -> bool {
    |y: Seq<char>| !text_less(y, x)
}

/// An ordered list with a text put in its place, unless it is there already.
pub open spec fn insert_distinct(s: Seq<Seq<char>>, x: Seq<char>) -> Seq<Seq<char>> {
    let i = first_index(s, not_before(x));
    if i < s.len() && s[i] == x {
        s
    } else {
        s.insert(i, x)
    }
}

/// The distinct texts of a list, in order.
pub open spec fn sorted_distinct(s: Seq<Seq<char>>) -> Seq<Seq<char>>
    decreases s.len(),
{
    if s.len() == 0 {
        Seq::empty()
    } else {
        insert_distinct(sorted_distinct(s.drop_last()), s.last())
    }
}

/// Each text of a list comes before all texts behind it.
pub open spec fn increasing(s: Seq<Seq<char>>) -> bool {
    forall|i: int, j: int| 0 <= i < j < s.len() ==> text_less(#[trigger] s[i], #[trigger] s[j])
}

proof fn lemma_insert_distinct(s: Seq<Seq<char>>, x: Seq<char>)
    requires
        increasing(s),
    ensures
        increasing(insert_distinct(s, x)),
        forall|y: Seq<char>| #[trigger]
            insert_distinct(s, x).contains(y) <==> (s.contains(y) || y == x),
{
    let f = not_before(x);
    let i = first_index(s, f);
    let r = insert_distinct(s, x);
    lemma_first_index(s, f);
    if i < s.len() && s[i] == x {
    } else {
        assert forall|a: int, b: int| 0 <= a < b < r.len() implies text_less(
            #[trigger] r[a],
            #[trigger] r[b],
        ) by {
            if b < i {
            } else if b == i {
                assert(!f(s[a]));
            } else if a == i {
                assert(f(s[i]));
                lemma_text_total(s[i], x);
                if b > i + 1 {
                    lemma_text_transitive(x, s[i], s[b - 1]);
                }
            }
        }
        assert forall|y: Seq<char>| s.contains(y) implies #[trigger] r.contains(y) by {
            let k = choose|k: int| 0 <= k < s.len() && s[k] == y;
            if k < i {
                assert(r[k] == y);
            } else {
                assert(r[k + 1] == y);
            }
        }
        assert(r[i] == x);
        assert forall|y: Seq<char>| #[trigger] r.contains(y) implies s.contains(y) || y == x by {
            let k = choose|k: int| 0 <= k < r.len() && r[k] == y;
            if k < i {
                assert(s[k] == y);
            } else if k > i {
                assert(s[k - 1] == y);
            }
        }
    }
}

/// `sorted_distinct` gives the texts of the list, each once, in increasing order.
pub proof fn law_sorted_distinct(s: Seq<Seq<char>>)
    ensures
        increasing(sorted_distinct(s)),
        forall|y: Seq<char>| #[trigger] sorted_distinct(s).contains(y) <==> s.contains(y),
    decreases s.len(),
{
    if s.len() > 0 {
        let t = s.drop_last();
        law_sorted_distinct(t);
        lemma_insert_distinct(sorted_distinct(t), s.last());
        assert forall|y: Seq<char>| #[trigger] sorted_distinct(s).contains(y) <==> s.contains(y) by {
            if s.contains(y) {
                let k = choose|k: int| 0 <= k < s.len() && s[k] == y;
                if k < s.len() - 1 {
                    assert(t[k] == y);
                }
            }
            if t.contains(y) {
                let k = choose|k: int| 0 <= k < t.len() && t[k] == y;
                assert(s[k] == y);
            }
            assert(s[s.len() - 1] == s.last());
        }
    }
}

/// Puts a text in its place in an ordered list, unless it is there already.
pub fn add_distinct(list: &mut Vec<String>, x: String)
    ensures
        final(list).deep_view() == insert_distinct(old(list).deep_view(), x@),
{
    let ghost before = list.deep_view();
    let ghost f = not_before(x@);
    let mut i: usize = 0;
    while i < list.len() && text_before(list[i].as_str(), x.as_str())
        invariant
            before == list.deep_view(),
            f == not_before(x@),
            i <= list@.len(),
            forall|j: int| 0 <= j < i ==> !f(#[trigger] before[j]),
        decreases list.len() - i,
    {
        assert(before[i as int] == list@[i as int]@);
        i += 1;
    }
    proof {
        if i < list@.len() {
            assert(before[i as int] == list@[i as int]@);
        }
        lemma_first_index_is(before, f, i as int);
    }
    if i < list.len() && crate::text::same_text(list[i].as_str(), x.as_str()) {
        return;
    }
    list.insert(i, x);
    assert(list.deep_view() =~= before.insert(i as int, x@));
}

// ---- Items in the order of their names -------------------------------------------------------

/// Items that are put in the order of a name.
pub trait Named: DeepView + Sized {
    /// The name of an item.
    spec fn name_of(item: Self::V) -> Seq<char>;

    fn name(&self) -> (r: &str)
        ensures
            r@ == Self::name_of(self.deep_view()),
    ;
}

/// The predicate that an item's name comes behind `name`.
pub open spec fn behind<T: Named>(name: Seq<char>) -> spec_fn(T::V) -> bool {
    |item: T::V| text_less(name, T::name_of(item))
}

/// A list in order with an item put behind those whose names do not come behind its own.
pub open spec fn insert_named<T: Named>(s: Seq<T::V>, item: T::V) -> Seq<T::V> {
    s.insert(first_index(s, behind::<T>(T::name_of(item))), item)
}

/// The items in the order of their names; items of equal names keep their order.
pub open spec fn sorted_by_name<T: Named>(s: Seq<T::V>) -> Seq<T::V>
    decreases s.len(),
{
    if s.len() == 0 {
        Seq::empty()
    } else {
        insert_named::<T>(sorted_by_name::<T>(s.drop_last()), s.last())
    }
}

/// No item's name comes before that of an item ahead of it.
pub open spec fn in_name_order<T: Named>(s: Seq<T::V>) -> bool {
    forall|i: int, j: int|
        0 <= i < j < s.len() ==> !text_less(
            T::name_of(#[trigger] s[j]),
            T::name_of(#[trigger] s[i]),
        )
}

/// Sorting puts the items in order and keeps every one of them.
pub proof fn law_sorted_by_name<T: Named>(s: Seq<T::V>)
    ensures
        in_name_order::<T>(sorted_by_name::<T>(s)),
        sorted_by_name::<T>(s).to_multiset() == s.to_multiset(),
        sorted_by_name::<T>(s).len() == s.len(),
    decreases s.len(),
{
    broadcast use vstd::seq_lib::group_to_multiset_ensures;

    if s.len() > 0 {
        let t = s.drop_last();
        let x = s.last();
        law_sorted_by_name::<T>(t);
        let u = sorted_by_name::<T>(t);
        let f = behind::<T>(T::name_of(x));
        let i = first_index(u, f);
        let r = u.insert(i, x);
        lemma_first_index(u, f);
        assert forall|a: int, b: int| 0 <= a < b < r.len() implies !text_less(
            T::name_of(#[trigger] r[b]),
            T::name_of(#[trigger] r[a]),
        ) by {
            if b < i {
                assert(r[a] == u[a] && r[b] == u[b]);
            } else if b == i {
                assert(!f(u[a]));
                assert(r[a] == u[a]);
            } else if a == i {
                assert(r[b] == u[b - 1]);
                assert(f(u[i]));
                let n = T::name_of(x);
                let m = T::name_of(u[i]);
                let k = T::name_of(u[b - 1]);
                lemma_text_total(n, k);
                if text_less(k, n) {
                    lemma_text_transitive(k, n, m);
                    if b - 1 > i {
                        assert(!text_less(T::name_of(u[b - 1]), T::name_of(u[i])));
                    } else {
                        lemma_text_total(m, m);
                    }
                }
            } else if a < i {
                assert(r[a] == u[a] && r[b] == u[b - 1]);
            } else {
                assert(r[a] == u[a - 1] && r[b] == u[b - 1]);
            }
        }
        assert(s =~= t.push(x));
        assert(r.to_multiset() =~= s.to_multiset());
    }
}

/// The predicate that an item has a name.
pub open spec fn is_named<T: Named>(name: Seq<char>) -> spec_fn(T::V) -> bool {
    |item: T::V| T::name_of(item) == name
}

proof fn lemma_none_named<T: Named>(s: Seq<T::V>, name: Seq<char>)
    requires
        forall|i: int| 0 <= i < s.len() ==> T::name_of(#[trigger] s[i]) != name,
    ensures
        s.filter(is_named::<T>(name)) == Seq::<T::V>::empty(),
    decreases s.len(),
{
    reveal(Seq::filter);
    if s.len() > 0 {
        assert forall|i: int| 0 <= i < s.drop_last().len() implies T::name_of(
            #[trigger] s.drop_last()[i],
        ) != name by {
            assert(s.drop_last()[i] == s[i]);
        }
        lemma_none_named::<T>(s.drop_last(), name);
        assert(T::name_of(s[s.len() - 1]) != name);
    }
}

proof fn lemma_filter_single<A>(x: A, p: spec_fn(A) -> bool)
    ensures
        seq![x].filter(p) == (if p(x) {
            seq![x]
        } else {
            Seq::<A>::empty()
        }),
{
    reveal_with_fuel(Seq::filter, 2);
    assert(seq![x].drop_last() =~= Seq::<A>::empty());
    assert(seq![x].last() == x);
    assert(Seq::<A>::empty().push(x) =~= seq![x]);
}

/// Sorting keeps the order of items with equal names.
pub proof fn law_sorting_is_stable<T: Named>(s: Seq<T::V>, name: Seq<char>)
    ensures
        sorted_by_name::<T>(s).filter(is_named::<T>(name)) == s.filter(is_named::<T>(name)),
    decreases s.len(),
{
    let p = is_named::<T>(name);
    reveal(Seq::filter);
    if s.len() > 0 {
        let t = s.drop_last();
        let x = s.last();
        law_sorting_is_stable::<T>(t, name);
        law_sorted_by_name::<T>(t);
        let u = sorted_by_name::<T>(t);
        let f = behind::<T>(T::name_of(x));
        let i = first_index(u, f);
        lemma_first_index(u, f);
        let r = u.insert(i, x);
        let ahead = u.take(i);
        let after = u.skip(i);
        let single = seq![x];
        assert(u =~= ahead + after);
        assert(r =~= (ahead + single) + after);
        Seq::filter_distributes_over_add(ahead, after, p);
        Seq::filter_distributes_over_add(ahead + single, after, p);
        Seq::filter_distributes_over_add(ahead, single, p);
        lemma_filter_single::<T::V>(x, p);
        if p(x) {
            assert forall|j: int| 0 <= j < after.len() implies T::name_of(#[trigger] after[j])
                != name by {
                assert(after[j] == u[i + j]);
                assert(f(u[i]));
                lemma_text_total(name, name);
                if j > 0 {
                    assert(!text_less(T::name_of(u[i + j]), T::name_of(u[i])));
                }
            }
            lemma_none_named::<T>(after, name);
            assert(r.filter(p) =~= u.filter(p).push(x));
        } else {
            assert(r.filter(p) =~= u.filter(p));
        }
    }
}

/// The items in the order of their names; items of equal names keep their order.
pub fn sort_by_name<T: Named>(items: Vec<T>) -> (r: Vec<T>)
    ensures
        r.deep_view() == sorted_by_name::<T>(items.deep_view()),
{
    let ghost all = items.deep_view();
    let mut rest = items;
    let mut sorted: Vec<T> = Vec::new();
    let ghost mut done: int = 0;
    proof {
        assert(all.take(0) =~= Seq::empty());
        assert(sorted.deep_view() =~= Seq::empty());
        assert(rest.deep_view() =~= all.skip(0));
    }
    while rest.len() > 0
        invariant
            0 <= done <= all.len(),
            rest.deep_view() == all.skip(done),
            sorted.deep_view() == sorted_by_name::<T>(all.take(done)),
        decreases rest.len(),
    {
        let ghost before = sorted.deep_view();
        let ghost rest_before = rest.deep_view();
        let item = rest.remove(0);
        proof {
            assert(rest_before[0] == item.deep_view());
            assert(rest.deep_view() =~= rest_before.drop_first());
            assert(rest_before.drop_first() =~= all.skip(done + 1));
            assert(all[done] == item.deep_view());
            assert(all.take(done + 1).drop_last() =~= all.take(done));
        }
        let ghost f = behind::<T>(T::name_of(item.deep_view()));
        let mut i: usize = 0;
        while i < sorted.len() && !text_before(item.name(), sorted[i].name())
            invariant
                before == sorted.deep_view(),
                f == behind::<T>(T::name_of(item.deep_view())),
                i <= sorted@.len(),
                forall|j: int| 0 <= j < i ==> !f(#[trigger] before[j]),
            decreases sorted.len() - i,
        {
            assert(before[i as int] == sorted@[i as int].deep_view());
            i += 1;
        }
        proof {
            if i < sorted@.len() {
                assert(before[i as int] == sorted@[i as int].deep_view());
            }
            lemma_first_index_is(before, f, i as int);
        }
        let ghost inserted = item.deep_view();
        sorted.insert(i, item);
        proof {
            assert(sorted.deep_view() =~= before.insert(i as int, inserted));
            done = done + 1;
        }
    }
    proof {
        assert(all.take(done) =~= all);
    }
    sorted
}

} // verus!
