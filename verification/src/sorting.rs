//! Lexicographic keys and a stable sort by key.
//!
//! Every ordering the app uses (by time, by value, by rarity then value, by
//! lower-cased name) is expressed as a sequence of integers compared
//! lexicographically; a stable sort keeps elements with equal keys in their
//! original relative order.
use vstd::prelude::*;

verus! {

/// Strict lexicographic order on integer sequences (a proper prefix is smaller).
pub open spec fn lex_lt(a: Seq<i64>, b: Seq<i64>) -> bool
    decreases a.len(),
{
    if a.len() == 0 {
        b.len() > 0
    } else if b.len() == 0 {
        false
    } else if a[0] != b[0] {
        a[0] < b[0]
    } else {
        lex_lt(a.drop_first(), b.drop_first())
    }
}

/// Non-strict lexicographic order.
pub open spec fn lex_le(a: Seq<i64>, b: Seq<i64>) -> bool {
    a == b || lex_lt(a, b)
}

/// `lex_lt` is irreflexive.
pub proof fn lemma_lex_irrefl(a: Seq<i64>)
    ensures
        !lex_lt(a, a),
    decreases a.len(),
{
    if a.len() > 0 {
        lemma_lex_irrefl(a.drop_first());
    }
}

/// `lex_lt` is asymmetric.
pub proof fn lemma_lex_asym(a: Seq<i64>, b: Seq<i64>)
    requires
        lex_lt(a, b),
    ensures
        !lex_lt(b, a),
        a != b,
    decreases a.len(),
{
    if a.len() > 0 && b.len() > 0 && a[0] == b[0] {
        lemma_lex_asym(a.drop_first(), b.drop_first());
    }
    if a == b {
        lemma_lex_irrefl(a);
    }
}

/// `lex_lt` is transitive.
pub proof fn lemma_lex_trans(a: Seq<i64>, b: Seq<i64>, c: Seq<i64>)
    requires
        lex_lt(a, b),
        lex_lt(b, c),
    ensures
        lex_lt(a, c),
    decreases a.len(),
{
    if a.len() > 0 && b.len() > 0 && c.len() > 0 && a[0] == b[0] && b[0] == c[0] {
        lemma_lex_trans(a.drop_first(), b.drop_first(), c.drop_first());
    }
}

/// Two different sequences are ordered one way or the other.
pub proof fn lemma_lex_total(a: Seq<i64>, b: Seq<i64>)
    ensures
        a == b || lex_lt(a, b) || lex_lt(b, a),
    decreases a.len(),
{
    if a.len() == 0 && b.len() == 0 {
        assert(a =~= b);
    } else if a.len() > 0 && b.len() > 0 && a[0] == b[0] {
        lemma_lex_total(a.drop_first(), b.drop_first());
        if a.drop_first() == b.drop_first() {
            assert(a =~= seq![a[0]] + a.drop_first());
            assert(b =~= seq![b[0]] + b.drop_first());
        }
    }
}

/// `lex_le` chains with `lex_lt`.
pub proof fn lemma_lex_lt_le(a: Seq<i64>, b: Seq<i64>, c: Seq<i64>)
    requires
        lex_lt(a, b),
        lex_le(b, c),
    ensures
        lex_lt(a, c),
{
    if b != c {
        lemma_lex_trans(a, b, c);
    }
}

/// `lex_le` is transitive.
pub proof fn lemma_lex_le_trans(a: Seq<i64>, b: Seq<i64>, c: Seq<i64>)
    requires
        lex_le(a, b),
        lex_le(b, c),
    ensures
        lex_le(a, c),
{
    if a != b && b != c {
        lemma_lex_trans(a, b, c);
    }
}

/// Whether `a` comes strictly before `b` in lexicographic order.
pub fn lex_less(a: &Vec<i64>, b: &Vec<i64>) -> (res: bool)
    ensures
        res == lex_lt(a@, b@),
{
    let mut i: usize = 0;
    assert(a@.skip(0) =~= a@);
    assert(b@.skip(0) =~= b@);
    while i < a.len() && i < b.len()
        invariant
            i <= a.len(),
            i <= b.len(),
            lex_lt(a@, b@) == lex_lt(a@.skip(i as int), b@.skip(i as int)),
        decreases a.len() - i,
    {
        if a[i] != b[i] {
            return a[i] < b[i];
        }
        assert(a@.skip(i as int).drop_first() =~= a@.skip(i + 1));
        assert(b@.skip(i as int).drop_first() =~= b@.skip(i + 1));
        i = i + 1;
    }
    i < b.len()
}

/// Every element is ordered no later than the ones after it.
pub open spec fn sorted_by<T>(s: Seq<T>, key: spec_fn(T) -> Seq<i64>) -> bool {
    forall|i: int, j: int| 0 <= i < j < s.len() ==> lex_le(#[trigger] key(s[i]), #[trigger] key(s[j]))
}

/// Holds of the elements whose key is `k`.
pub open spec fn has_key<T>(key: spec_fn(T) -> Seq<i64>, k: Seq<i64>) -> spec_fn(T) -> bool {
    |x: T| key(x) == k
}

/// The elements of `s` whose key is `k`, in their order in `s`.
pub open spec fn key_class<T>(s: Seq<T>, key: spec_fn(T) -> Seq<i64>, k: Seq<i64>) -> Seq<T> {
    s.filter(has_key(key, k))
}

/// `out` is `inp` stably sorted by `key`: it is sorted, has the same length,
/// and for every key the elements with that key appear in the same order.
pub open spec fn is_stable_sort_of<T>(out: Seq<T>, inp: Seq<T>, key: spec_fn(T) -> Seq<i64>) -> bool {
    &&& out.len() == inp.len()
    &&& sorted_by(out, key)
    &&& forall|k: Seq<i64>| #[trigger] key_class(out, key, k) == key_class(inp, key, k)
}

proof fn lemma_class_push<T>(s: Seq<T>, x: T, key: spec_fn(T) -> Seq<i64>, k: Seq<i64>)
    ensures
        key_class(s.push(x), key, k) == if key(x) == k {
            key_class(s, key, k).push(x)
        } else {
            key_class(s, key, k)
        },
{
    s.lemma_filter_push(x, has_key(key, k));
}

proof fn lemma_class_insert<T>(s: Seq<T>, p: int, x: T, key: spec_fn(T) -> Seq<i64>, k: Seq<i64>)
    requires
        0 <= p <= s.len(),
        forall|j: int| p <= j < s.len() ==> key(#[trigger] s[j]) != key(x),
    ensures
        key_class(s.insert(p, x), key, k) == if key(x) == k {
            key_class(s, key, k).push(x)
        } else {
            key_class(s, key, k)
        },
{
    let pred = has_key(key, k);
    let pre = s.take(p);
    let post = s.skip(p);
    assert(s.insert(p, x) =~= pre + seq![x] + post);
    assert(s =~= pre + post);
    Seq::filter_distributes_over_add(pre + seq![x], post, pred);
    Seq::filter_distributes_over_add(pre, seq![x], pred);
    Seq::filter_distributes_over_add(pre, post, pred);
    assert(seq![x] =~= Seq::<T>::empty().push(x));
    Seq::<T>::empty().lemma_filter_push(x, pred);
    reveal(Seq::filter);
    assert(Seq::<T>::empty().filter(pred) =~= Seq::<T>::empty());
    if key(x) == k {
        assert forall|j: int| 0 <= j < post.len() implies !pred(post[j]) by {
            assert(post[j] == s[p + j]);
        }
        assert(post.all(|y: T| !pred(y)));
        post.lemma_all_neg_filter_empty(pred);
        assert(post.filter(pred) =~= Seq::<T>::empty());
        assert(pre.filter(pred) + seq![x] =~= pre.filter(pred).push(x));
    }
    assert(pre.filter(pred) + Seq::<T>::empty() =~= pre.filter(pred));
}

/// Sorts `items` stably by `key`; `keys[i]` is the key of `items[i]`.
pub fn stable_sort_by_key<T>(items: Vec<T>, keys: Vec<Vec<i64>>, Ghost(key): Ghost<spec_fn(T) -> Seq<i64>>) -> (res: Vec<T>)
    requires
        keys.len() == items.len(),
        forall|i: int| 0 <= i < items.len() ==> (#[trigger] keys[i])@ == key(items[i]),
    ensures
        is_stable_sort_of(res@, items@, key),
{
    let ghost orig = items@;
    let mut rest = items;
    let mut rest_keys = keys;
    let mut out: Vec<T> = Vec::new();
    let mut out_keys: Vec<Vec<i64>> = Vec::new();
    let ghost mut n: int = 0;
    assert(orig.skip(0) =~= orig);
    assert(orig.take(0) =~= Seq::<T>::empty());
    assert forall|k: Seq<i64>| #[trigger] key_class(out@, key, k) == key_class(orig.take(0), key, k) by {
        assert(out@ =~= orig.take(0));
    }
    while rest.len() > 0
        invariant
            0 <= n <= orig.len(),
            rest@ == orig.skip(n),
            rest_keys.len() == rest.len(),
            forall|i: int| 0 <= i < rest.len() ==> (#[trigger] rest_keys[i])@ == key(rest[i]),
            out.len() == n,
            out_keys.len() == out.len(),
            forall|i: int| 0 <= i < out.len() ==> (#[trigger] out_keys[i])@ == key(out[i]),
            sorted_by(out@, key),
            forall|k: Seq<i64>| #[trigger] key_class(out@, key, k) == key_class(orig.take(n), key, k),
        decreases rest.len(),
    {
        let x = rest.remove(0);
        let kx = rest_keys.remove(0);
        assert(kx@ == key(x));
        assert(x == orig[n]);
        let mut p: usize = 0;
        loop
            invariant
                p <= out.len(),
                out_keys.len() == out.len(),
                forall|i: int| 0 <= i < out.len() ==> (#[trigger] out_keys[i])@ == key(out[i]),
                kx@ == key(x),
                forall|j: int| 0 <= j < p ==> lex_le(#[trigger] key(out[j]), key(x)),
            ensures
                p <= out.len(),
                forall|j: int| 0 <= j < p ==> lex_le(#[trigger] key(out[j]), key(x)),
                p == out.len() || lex_lt(key(x), key(out[p as int])),
            decreases out.len() - p,
        {
            if p == out.len() {
                break;
            }
            if lex_less(&kx, &out_keys[p]) {
                break;
            }
            proof {
                lemma_lex_total(key(x), key(out[p as int]));
            }
            p = p + 1;
        }
        let ghost old_out = out@;
        proof {
            assert forall|j: int| p <= j < old_out.len() implies lex_lt(key(x), #[trigger] key(old_out[j])) by {
                if j > p {
                    lemma_lex_lt_le(key(x), key(old_out[p as int]), key(old_out[j]));
                }
            }
            assert forall|j: int| p <= j < old_out.len() implies key(#[trigger] old_out[j]) != key(x) by {
                lemma_lex_asym(key(x), key(old_out[j]));
            }
        }
        out.insert(p, x);
        out_keys.insert(p, kx);
        proof {
            let ghost np: int = p as int;
            assert(out@ == old_out.insert(np, x));
            assert forall|i: int, j: int| 0 <= i < j < out@.len() implies lex_le(#[trigger] key(out@[i]), #[trigger] key(out@[j])) by {
                if j < np {
                } else if j == np {
                } else if i < np {
                    lemma_lex_le_trans(key(old_out[i]), key(x), key(old_out[j - 1]));
                } else if i == np {
                } else {
                }
            }
            assert(orig.take(n + 1) =~= orig.take(n).push(x));
            assert forall|k: Seq<i64>| #[trigger] key_class(out@, key, k) == key_class(orig.take(n + 1), key, k) by {
                lemma_class_insert(old_out, np, x, key, k);
                lemma_class_push(orig.take(n), x, key, k);
            }
            assert(rest@ =~= orig.skip(n + 1));
            n = n + 1;
        }
    }
    assert(orig.take(n) =~= orig);
    out
}

/// Keeping the elements that satisfy `p` commutes with mapping every element
/// through `f`, when `q` is `p` read through `f`.
pub proof fn lemma_filter_map_commute<T, V>(s: Seq<T>, f: spec_fn(T) -> V, p: spec_fn(V) -> bool, q: spec_fn(T) -> bool)
    requires
        forall|t: T| #[trigger] q(t) == p(f(t)),
    ensures
        s.map_values(f).filter(p) == s.filter(q).map_values(f),
    decreases s.len(),
{
    reveal(Seq::filter);
    if s.len() > 0 {
        lemma_filter_map_commute(s.drop_last(), f, p, q);
        assert(s.map_values(f).drop_last() =~= s.drop_last().map_values(f));
        if q(s.last()) {
            assert(s.filter(q).map_values(f) =~= s.drop_last().filter(q).map_values(f).push(f(s.last())));
        }
    } else {
        assert(s.map_values(f).filter(p) =~= Seq::<V>::empty());
    }
    assert(s.map_values(f).filter(p) =~= s.filter(q).map_values(f));
}

/// A stable sort stays a stable sort when every element is replaced by its
/// image under `f`, if the key only depends on that image.
pub proof fn lemma_stable_sort_map<T, V>(
    out: Seq<T>,
    inp: Seq<T>,
    f: spec_fn(T) -> V,
    key: spec_fn(V) -> Seq<i64>,
    tkey: spec_fn(T) -> Seq<i64>,
)
    requires
        forall|t: T| #[trigger] tkey(t) == key(f(t)),
        is_stable_sort_of(out, inp, tkey),
    ensures
        is_stable_sort_of(out.map_values(f), inp.map_values(f), key),
{
    assert forall|i: int, j: int| 0 <= i < j < out.map_values(f).len() implies lex_le(
        #[trigger] key(out.map_values(f)[i]),
        #[trigger] key(out.map_values(f)[j]),
    ) by {
        assert(tkey(out[i]) == key(f(out[i])));
        assert(tkey(out[j]) == key(f(out[j])));
    }
    assert forall|k: Seq<i64>| #[trigger] key_class(out.map_values(f), key, k) == key_class(inp.map_values(f), key, k) by {
        assert forall|t: T| #[trigger] has_key(tkey, k)(t) == has_key(key, k)(f(t)) by {
            assert(tkey(t) == key(f(t)));
        }
        lemma_filter_map_commute(out, f, has_key(key, k), has_key(tkey, k));
        lemma_filter_map_commute(inp, f, has_key(key, k), has_key(tkey, k));
        assert(key_class(out, tkey, k) == key_class(inp, tkey, k));
    }
}

/// The elements of `v` in reverse order.
pub fn reversed<T>(v: Vec<T>) -> (res: Vec<T>)
    ensures
        res@ == v@.reverse(),
{
    let ghost orig = v@;
    let mut v = v;
    let mut out: Vec<T> = Vec::new();
    while v.len() > 0
        invariant
            v@ == orig.take(v.len() as int),
            out@ == orig.skip(v.len() as int).reverse(),
            v.len() <= orig.len(),
        decreases v.len(),
    {
        let ghost n = v.len() as int;
        let x = v.pop().unwrap();
        out.push(x);
        assert(v@ =~= orig.take(n - 1));
        assert(out@ =~= orig.skip(n - 1).reverse());
    }
    assert(orig.skip(0) =~= orig);
    out
}

proof fn lemma_count_in_class<T>(s: Seq<T>, key: spec_fn(T) -> Seq<i64>, x: T)
    ensures
        s.to_multiset().count(x) == key_class(s, key, key(x)).to_multiset().count(x),
    decreases s.len(),
{
    broadcast use vstd::seq_lib::group_to_multiset_ensures;
    broadcast use vstd::multiset::group_multiset_axioms;

    if s.len() == 0 {
        reveal(Seq::filter);
        assert(key_class(s, key, key(x)) =~= s);
    } else {
        let init = s.drop_last();
        let y = s.last();
        lemma_count_in_class(init, key, x);
        assert(s =~= init.push(y));
        lemma_class_push(init, y, key, key(x));
        if key(y) != key(x) {
            assert(y != x);
        }
    }
}

/// Law: a stable sort neither loses nor duplicates elements; the output is
/// a permutation of the input.
pub proof fn lemma_stable_sort_permutes<T>(out: Seq<T>, inp: Seq<T>, key: spec_fn(T) -> Seq<i64>)
    requires
        is_stable_sort_of(out, inp, key),
    ensures
        out.to_multiset() == inp.to_multiset(),
{
    assert forall|x: T| out.to_multiset().count(x) == inp.to_multiset().count(x) by {
        lemma_count_in_class(out, key, x);
        lemma_count_in_class(inp, key, x);
        assert(key_class(out, key, key(x)) == key_class(inp, key, key(x)));
    }
    assert(out.to_multiset() =~= inp.to_multiset());
}

/// Some element of `s` has key `k` when the class of `k` in `s` is not empty.
proof fn lemma_class_member<T>(s: Seq<T>, key: spec_fn(T) -> Seq<i64>, k: Seq<i64>) -> (j: int)
    requires
        key_class(s, key, k).len() > 0,
    ensures
        0 <= j < s.len(),
        key(s[j]) == k,
{
    let pred = has_key(key, k);
    if forall|i: int| 0 <= i < s.len() ==> key(#[trigger] s[i]) != k {
        assert forall|i: int| 0 <= i < s.len() implies !pred(#[trigger] s[i]) by {}
        assert(s.all(|y: T| !pred(y)));
        s.lemma_all_neg_filter_empty(pred);
        assert(false);
    }
    choose|i: int| 0 <= i < s.len() && key(#[trigger] s[i]) == k
}

/// Two sorted sequences of the same length whose key classes agree are
/// equal.
proof fn lemma_sorted_classes_determine<T>(a: Seq<T>, b: Seq<T>, key: spec_fn(T) -> Seq<i64>)
    requires
        a.len() == b.len(),
        sorted_by(a, key),
        sorted_by(b, key),
        forall|k: Seq<i64>| #[trigger] key_class(a, key, k) == key_class(b, key, k),
    ensures
        a == b,
    decreases a.len(),
{
    if a.len() == 0 {
        assert(a =~= b);
    } else {
        let n = a.len() as int;
        let a0 = a.drop_last();
        let b0 = b.drop_last();
        let ka = key(a.last());
        let kb = key(b.last());
        assert(a =~= a0.push(a.last()));
        assert(b =~= b0.push(b.last()));
        lemma_class_push(a0, a.last(), key, ka);
        lemma_class_push(b0, b.last(), key, kb);
        assert(key_class(a, key, ka) == key_class(b, key, ka));
        assert(key_class(a, key, kb) == key_class(b, key, kb));
        let jb = lemma_class_member(b, key, ka);
        let ja = lemma_class_member(a, key, kb);
        if jb < n - 1 {
            assert(lex_le(key(b[jb]), key(b[n - 1])));
        }
        if ja < n - 1 {
            assert(lex_le(key(a[ja]), key(a[n - 1])));
        }
        assert(lex_le(ka, kb));
        assert(lex_le(kb, ka));
        if ka != kb {
            lemma_lex_asym(ka, kb);
        }
        let k = ka;
        lemma_class_push(a0, a.last(), key, k);
        lemma_class_push(b0, b.last(), key, k);
        let ca = key_class(a, key, k);
        let cb = key_class(b, key, k);
        assert(ca.last() == a.last());
        assert(cb.last() == b.last());
        assert(ca.drop_last() =~= key_class(a0, key, k));
        assert(cb.drop_last() =~= key_class(b0, key, k));
        assert forall|k2: Seq<i64>| #[trigger] key_class(a0, key, k2) == key_class(b0, key, k2) by {
            lemma_class_push(a0, a.last(), key, k2);
            lemma_class_push(b0, b.last(), key, k2);
            assert(key_class(a, key, k2) == key_class(b, key, k2));
            if k2 == k {
                assert(key_class(a0, key, k2) == ca.drop_last());
                assert(key_class(b0, key, k2) == cb.drop_last());
            }
        }
        assert forall|i: int, j: int| 0 <= i < j < a0.len() implies lex_le(#[trigger] key(a0[i]), #[trigger] key(a0[j])) by {
            assert(a0[i] == a[i] && a0[j] == a[j]);
        }
        assert forall|i: int, j: int| 0 <= i < j < b0.len() implies lex_le(#[trigger] key(b0[i]), #[trigger] key(b0[j])) by {
            assert(b0[i] == b[i] && b0[j] == b[j]);
        }
        lemma_sorted_classes_determine(a0, b0, key);
    }
}

/// Law: a stable sort is unique; two stable sorts of the same input by the
/// same key are the same sequence.
pub proof fn lemma_stable_sort_unique<T>(a: Seq<T>, b: Seq<T>, inp: Seq<T>, key: spec_fn(T) -> Seq<i64>)
    requires
        is_stable_sort_of(a, inp, key),
        is_stable_sort_of(b, inp, key),
    ensures
        a == b,
{
    assert forall|k: Seq<i64>| #[trigger] key_class(a, key, k) == key_class(b, key, k) by {
        assert(key_class(a, key, k) == key_class(inp, key, k));
        assert(key_class(b, key, k) == key_class(inp, key, k));
    }
    lemma_sorted_classes_determine(a, b, key);
}

/// Filtering by `pq`, which holds exactly when `p` and `q` do, is filtering
/// by `p` and then by `q`.
pub proof fn lemma_filter_filter<T>(s: Seq<T>, p: spec_fn(T) -> bool, q: spec_fn(T) -> bool, pq: spec_fn(T) -> bool)
    requires
        forall|x: T| #[trigger] pq(x) == (p(x) && q(x)),
    ensures
        s.filter(pq) == s.filter(p).filter(q),
    decreases s.len(),
{
    if s.len() == 0 {
        reveal(Seq::filter);
        assert(s.filter(pq) =~= s.filter(p).filter(q));
    } else {
        let init = s.drop_last();
        let x = s.last();
        lemma_filter_filter(init, p, q, pq);
        assert(s =~= init.push(x));
        init.lemma_filter_push(x, pq);
        init.lemma_filter_push(x, p);
        init.filter(p).lemma_filter_push(x, q);
    }
}

/// One-element keys compare as their elements do.
pub proof fn lemma_lex_le_single(a: i64, b: i64)
    requires
        lex_le(seq![a], seq![b]),
    ensures
        a <= b,
{
    if a != b {
        assert(seq![a][0] == a && seq![b][0] == b);
    }
}

/// Two-element keys compare by their first elements, then their second.
pub proof fn lemma_lex_le_pair(a0: i64, a1: i64, b0: i64, b1: i64)
    requires
        lex_le(seq![a0, a1], seq![b0, b1]),
    ensures
        a0 < b0 || (a0 == b0 && a1 <= b1),
{
    let a = seq![a0, a1];
    let b = seq![b0, b1];
    assert(a[0] == a0 && b[0] == b0 && a[1] == a1 && b[1] == b1);
    if a != b && a0 == b0 {
        assert(a.drop_first() =~= seq![a1]);
        assert(b.drop_first() =~= seq![b1]);
        assert(lex_lt(seq![a1], seq![b1]));
        lemma_lex_le_single(a1, b1);
    }
    if a == b {
        assert(a0 == b0 && a1 == b1) by {
            assert(a[0] == b[0] && a[1] == b[1]);
        }
    }
}

/// Keeping the elements that satisfy a predicate every element satisfies
/// keeps the whole sequence.
pub proof fn lemma_filter_keeps_all<T>(s: Seq<T>, p: spec_fn(T) -> bool)
    requires
        forall|x: T| #[trigger] p(x),
    ensures
        s.filter(p) == s,
    decreases s.len(),
{
    reveal(Seq::filter);
    if s.len() > 0 {
        lemma_filter_keeps_all(s.drop_last(), p);
        assert(s.drop_last().push(s.last()) =~= s);
    } else {
        assert(s.filter(p) =~= s);
    }
}

} // verus!
