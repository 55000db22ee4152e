//! Stable insertion sort by string keys, and consecutive-duplicate removal.
//!
//! Every ordered list in this crate is produced by a stable sort;
//! [`sort_by`] is that stable sort stated over models and [`sort_keyed`]
//! computes exactly it.

use vstd::prelude::*;
use crate::text::{
    key_lt, lemma_key_asym, lemma_key_irrefl, lemma_key_total, lemma_key_trans, lemma_lex_irrefl,
    str_eq, str_lt, strs,
};

verus! {

/// A value ordered by a sequence of strings (compared lexicographically),
/// the key being a function of the value's model.
pub trait Keyed: View + Sized {
    spec fn mkey(m: Self::V) -> Seq<Seq<char>>;

    fn sorts_before(&self, other: &Self) -> (b: bool)
        ensures
            b == key_lt(Self::mkey(self@), Self::mkey(other@)),
    ;
}

/// A `String` is keyed by itself.
impl Keyed for String {
    open spec fn mkey(m: Seq<char>) -> Seq<Seq<char>> {
        seq![m]
    }

    fn sorts_before(&self, other: &Self) -> (b: bool) {
        let r = str_lt(self.as_str(), other.as_str());
        proof {
            let a = Self::mkey(self@);
            let b = Self::mkey(other@);
            assert(a.drop_first().len() == 0);
            assert(b.drop_first().len() == 0);
            lemma_key_irrefl(a.drop_first());
            lemma_lex_irrefl(self@);
            assert(a.drop_first() == b.drop_first());
        }
        r
    }
}

/// Whether key `a` sorts strictly before key `b`.
pub fn keys_lt(a: &Vec<String>, b: &Vec<String>) -> (r: bool)
    ensures
        r == key_lt(strs(a@), strs(b@)),
{
    let ghost sa = strs(a@);
    let ghost sb = strs(b@);
    let mut i: usize = 0;
    assert(sa.skip(0) == sa);
    assert(sb.skip(0) == sb);
    while i < a.len() && i < b.len() && a[i] == b[i]
        invariant
            i <= a.len(),
            i <= b.len(),
            sa == strs(a@),
            sb == strs(b@),
            key_lt(sa, sb) == key_lt(sa.skip(i as int), sb.skip(i as int)),
        decreases a.len() - i,
    {
        assert(sa.skip(i as int).drop_first() == sa.skip(i + 1));
        assert(sb.skip(i as int).drop_first() == sb.skip(i + 1));
        i = i + 1;
    }
    if i == a.len() {
        i < b.len()
    } else if i == b.len() {
        false
    } else {
        assert(sa.skip(i as int)[0] == a@[i as int]@);
        assert(sb.skip(i as int)[0] == b@[i as int]@);
        str_lt(a[i].as_str(), b[i].as_str())
    }
}

/// Stable insertion of `x` into `s`: after every element whose key is not
/// greater than `x`'s.
pub open spec fn ins_by<T>(s: Seq<T>, x: T, k: spec_fn(T) -> Seq<Seq<char>>) -> Seq<T>
    decreases s.len(),
{
    if s.len() == 0 {
        seq![x]
    } else if key_lt(k(x), k(s.last())) {
        ins_by(s.drop_last(), x, k).push(s.last())
    } else {
        s.push(x)
    }
}

/// The stable sort of `s` by key `k`.
pub open spec fn sort_by<T>(s: Seq<T>, k: spec_fn(T) -> Seq<Seq<char>>) -> Seq<T>
    decreases s.len(),
{
    if s.len() == 0 {
        s
    } else {
        ins_by(sort_by(s.drop_last(), k), s.last(), k)
    }
}

/// The models of a vector's elements.
pub open spec fn models<T: View>(s: Seq<T>) -> Seq<T::V> {
    s.map_values(|x: T| x@)
}

/// The key function of a keyed type, on models.
pub open spec fn key_fn<T: Keyed>() -> spec_fn(T::V) -> Seq<Seq<char>> {
    |m: T::V| T::mkey(m)
}

proof fn lemma_ins_step<M>(r: Seq<M>, i: int, x: M, k: spec_fn(M) -> Seq<Seq<char>>)
    requires
        0 < i <= r.len(),
        key_lt(k(x), k(r[i - 1])),
    ensures
        ins_by(r.take(i), x, k) + r.skip(i) == ins_by(r.take(i - 1), x, k) + r.skip(i - 1),
{
    let s = r.take(i);
    assert(s.drop_last() == r.take(i - 1));
    assert(s.last() == r[i - 1]);
    assert(r.skip(i - 1) == seq![r[i - 1]] + r.skip(i));
    assert(ins_by(s, x, k) == ins_by(r.take(i - 1), x, k).push(r[i - 1]));
    assert(ins_by(r.take(i - 1), x, k).push(r[i - 1]) + r.skip(i) == ins_by(
        r.take(i - 1),
        x,
        k,
    ) + (seq![r[i - 1]] + r.skip(i)));
}

/// Inserts `x` into the sorted vector `r` as [`ins_by`] does.
fn insert_keyed<T: Keyed>(r: &mut Vec<T>, x: T)
    ensures
        models(final(r)@) == ins_by(models(old(r)@), x@, key_fn::<T>()),
{
    let mut i: usize = r.len();
    let ghost r0 = models(r@);
    let ghost k = key_fn::<T>();
    assert(r0.take(r0.len() as int) == r0);
    assert(r0.skip(r0.len() as int) == Seq::<T::V>::empty());
    while i > 0 && x.sorts_before(&r[i - 1])
        invariant
            i <= r.len(),
            models(r@) == r0,
            k == key_fn::<T>(),
            ins_by(r0, x@, k) == ins_by(r0.take(i as int), x@, k) + r0.skip(i as int),
        decreases i,
    {
        proof {
            assert(r0[i - 1] == r@[i - 1]@);
            lemma_ins_step(r0, i as int, x@, k);
        }
        i = i - 1;
    }
    proof {
        let s = r0.take(i as int);
        if i > 0 {
            assert(s.last() == r0[i - 1]);
            assert(r0[i - 1] == r@[i - 1]@);
            assert(ins_by(s, x@, k) == s.push(x@));
        } else {
            assert(ins_by(s, x@, k) == seq![x@]);
        }
    }
    let ghost before = r@;
    r.insert(i, x);
    assert(models(r@) =~= r0.take(i as int).push(x@) + r0.skip(i as int));
}

/// Stable sort by key.
pub fn sort_keyed<T: Keyed>(v: Vec<T>) -> (r: Vec<T>)
    ensures
        models(r@) == sort_by(models(v@), key_fn::<T>()),
        r.len() == v.len(),
{
    let ghost orig = models(v@);
    let ghost k = key_fn::<T>();
    let mut v = v;
    let mut r: Vec<T> = Vec::new();
    let mut n: usize = 0;
    assert(orig.len() == v.len());
    assert(orig.take(0) == Seq::<T::V>::empty());
    assert(orig.skip(0) == orig);
    while v.len() > 0
        invariant
            n + v.len() == orig.len(),
            orig.len() <= usize::MAX,
            k == key_fn::<T>(),
            models(v@) == orig.skip(n as int),
            models(r@) == sort_by(orig.take(n as int), k),
        decreases v.len(),
    {
        let ghost vb = v@;
        let x = v.remove(0);
        proof {
            assert(models(vb)[0] == vb[0]@);
            assert(orig.skip(n as int)[0] == orig[n as int]);
            assert(x@ == orig[n as int]);
            assert(v@ =~= vb.skip(1));
            assert(models(v@) =~= models(vb).skip(1));
            assert(orig.skip(n as int).skip(1) =~= orig.skip(n + 1));
            assert(orig.take(n + 1).drop_last() == orig.take(n as int));
            assert(orig.take(n + 1).last() == x@);
            assert(models(v@) =~= orig.skip(n + 1));
        }
        insert_keyed(&mut r, x);
        n = n + 1;
    }
    assert(orig.take(orig.len() as int) == orig);
    proof {
        lemma_sort_len(orig, k);
    }
    r
}

pub proof fn lemma_ins_len<M>(s: Seq<M>, x: M, k: spec_fn(M) -> Seq<Seq<char>>)
    ensures
        ins_by(s, x, k).len() == s.len() + 1,
    decreases s.len(),
{
    if s.len() > 0 && key_lt(k(x), k(s.last())) {
        lemma_ins_len(s.drop_last(), x, k);
    }
}

pub proof fn lemma_sort_len<M>(s: Seq<M>, k: spec_fn(M) -> Seq<Seq<char>>)
    ensures
        sort_by(s, k).len() == s.len(),
    decreases s.len(),
{
    if s.len() > 0 {
        lemma_sort_len(s.drop_last(), k);
        lemma_ins_len(sort_by(s.drop_last(), k), s.last(), k);
    }
}

/// `s` is ordered by `k`: no element's key is below an earlier element's.
pub open spec fn sorted_by<T>(s: Seq<T>, k: spec_fn(T) -> Seq<Seq<char>>) -> bool {
    forall|i: int, j: int| 0 <= i < j < s.len() ==> !key_lt(#[trigger] k(s[j]), #[trigger] k(s[i]))
}

/// Elements of `s` with equal keys are identical (an element may occur
/// more than once).
pub open spec fn equal_keys_identical<T>(s: Seq<T>, k: spec_fn(T) -> Seq<Seq<char>>) -> bool {
    forall|x: T, y: T|
        #![trigger s.contains(x), s.contains(y)]
        s.contains(x) && s.contains(y) && k(x) == k(y) ==> x == y
}

/// "Not below" is transitive.
proof fn lemma_key_le_trans(a: Seq<Seq<char>>, b: Seq<Seq<char>>, c: Seq<Seq<char>>)
    requires
        !key_lt(b, a),
        !key_lt(c, b),
    ensures
        !key_lt(c, a),
{
    lemma_key_total(a, b);
    if key_lt(c, a) && a != b {
        lemma_key_trans(c, a, b);
    }
}

/// Insertion adds exactly the inserted element.
pub proof fn lemma_ins_perm<T>(s: Seq<T>, x: T, k: spec_fn(T) -> Seq<Seq<char>>)
    ensures
        ins_by(s, x, k).to_multiset() =~= s.to_multiset().insert(x),
    decreases s.len(),
{
    broadcast use vstd::seq_lib::group_to_multiset_ensures;
    broadcast use vstd::multiset::group_multiset_axioms;

    if s.len() == 0 {
        assert(seq![x] =~= s.push(x));
    } else if key_lt(k(x), k(s.last())) {
        lemma_ins_perm(s.drop_last(), x, k);
        assert(s =~= s.drop_last().push(s.last()));
    }
}

/// Sorting permutes: the result holds the same elements, as often.
pub proof fn lemma_sort_perm<T>(s: Seq<T>, k: spec_fn(T) -> Seq<Seq<char>>)
    ensures
        sort_by(s, k).to_multiset() =~= s.to_multiset(),
    decreases s.len(),
{
    broadcast use vstd::seq_lib::group_to_multiset_ensures;

    if s.len() > 0 {
        lemma_sort_perm(s.drop_last(), k);
        lemma_ins_perm(sort_by(s.drop_last(), k), s.last(), k);
        assert(s =~= s.drop_last().push(s.last()));
    }
}

proof fn lemma_ins_sorted<T>(s: Seq<T>, x: T, k: spec_fn(T) -> Seq<Seq<char>>)
    requires
        sorted_by(s, k),
    ensures
        sorted_by(ins_by(s, x, k), k),
    decreases s.len(),
{
    broadcast use vstd::seq_lib::group_to_multiset_ensures;
    broadcast use vstd::multiset::group_multiset_axioms;

    if s.len() == 0 {
    } else if key_lt(k(x), k(s.last())) {
        let d = s.drop_last();
        let l = s.last();
        assert(sorted_by(d, k));
        lemma_ins_sorted(d, x, k);
        let r = ins_by(d, x, k);
        lemma_ins_perm(d, x, k);
        assert forall|i: int| 0 <= i < r.len() implies !key_lt(k(l), #[trigger] k(r[i])) by {
            assert(r.to_multiset().count(r[i]) > 0);
            if r[i] == x {
                lemma_key_asym(k(x), k(l));
            } else {
                assert(d.to_multiset().count(r[i]) > 0);
                let j = choose|j: int| 0 <= j < d.len() && d[j] == r[i];
                assert(s[j] == d[j]);
                assert(s[s.len() - 1] == l);
            }
        }
        let rr = r.push(l);
        assert forall|i: int, j: int| 0 <= i < j < rr.len() implies !key_lt(
            #[trigger] k(rr[j]),
            #[trigger] k(rr[i]),
        ) by {
            if j == rr.len() - 1 {
                assert(rr[i] == r[i]);
            } else {
                assert(rr[i] == r[i] && rr[j] == r[j]);
            }
        }
    } else {
        let rr = s.push(x);
        let l = s.last();
        assert forall|i: int, j: int| 0 <= i < j < rr.len() implies !key_lt(
            #[trigger] k(rr[j]),
            #[trigger] k(rr[i]),
        ) by {
            if j == rr.len() - 1 {
                assert(rr[i] == s[i]);
                if i < s.len() - 1 {
                    assert(!key_lt(k(s[s.len() - 1]), k(s[i])));
                    lemma_key_le_trans(k(s[i]), k(l), k(x));
                }
            } else {
                assert(rr[i] == s[i] && rr[j] == s[j]);
            }
        }
    }
}

/// The result of [`sort_by`] is ordered.
pub proof fn lemma_sort_sorted<T>(s: Seq<T>, k: spec_fn(T) -> Seq<Seq<char>>)
    ensures
        sorted_by(sort_by(s, k), k),
    decreases s.len(),
{
    if s.len() > 0 {
        lemma_sort_sorted(s.drop_last(), k);
        lemma_ins_sorted(sort_by(s.drop_last(), k), s.last(), k);
    }
}

/// Two ordered sequences with the same elements, whose keys tell elements
/// apart, are equal.
pub proof fn lemma_sorted_unique<T>(a: Seq<T>, b: Seq<T>, k: spec_fn(T) -> Seq<Seq<char>>)
    requires
        sorted_by(a, k),
        sorted_by(b, k),
        a.to_multiset() == b.to_multiset(),
        equal_keys_identical(a, k),
    ensures
        a == b,
    decreases a.len(),
{
    broadcast use vstd::seq_lib::group_to_multiset_ensures;
    broadcast use vstd::multiset::group_multiset_axioms;

    if a.len() == 0 {
        assert(b.to_multiset().len() == 0);
        assert(a =~= b);
    } else {
        assert(a.to_multiset().len() == a.len());
        assert(b.to_multiset().len() == b.len());
        let x = a.last();
        let y = b.last();
        assert(a.to_multiset().count(x) > 0);
        assert(b.to_multiset().count(y) > 0);
        assert(a.contains(x));
        assert(a.contains(y));
        let i = choose|i: int| 0 <= i < a.len() && a[i] == y;
        let j = choose|j: int| 0 <= j < b.len() && b[j] == x;
        if i < a.len() - 1 {
            assert(!key_lt(k(a[a.len() - 1]), k(a[i])));
        }
        if j < b.len() - 1 {
            assert(!key_lt(k(b[b.len() - 1]), k(b[j])));
        }
        lemma_key_irrefl(k(x));
        lemma_key_total(k(x), k(y));
        assert(x == y);
        let a2 = a.drop_last();
        let b2 = b.drop_last();
        assert(a =~= a2.push(x));
        assert(b =~= b2.push(x));
        assert(a2.to_multiset() =~= a.to_multiset().remove(x));
        assert(b2.to_multiset() =~= b.to_multiset().remove(x));
        assert(sorted_by(a2, k));
        assert(sorted_by(b2, k));
        assert forall|u: T, v: T|
            #![trigger a2.contains(u), a2.contains(v)]
            a2.contains(u) && a2.contains(v) && k(u) == k(v) implies u == v by {
            let iu = choose|iu: int| 0 <= iu < a2.len() && a2[iu] == u;
            let iv = choose|iv: int| 0 <= iv < a2.len() && a2[iv] == v;
            assert(a[iu] == u && a[iv] == v);
            assert(a.contains(u) && a.contains(v));
        }
        lemma_sorted_unique(a2, b2, k);
    }
}

/// Sorting is canonical: two sequences holding the same elements, whose keys
/// tell elements apart, sort to the same sequence whatever their order.
pub proof fn lemma_sort_canonical<T>(a: Seq<T>, b: Seq<T>, k: spec_fn(T) -> Seq<Seq<char>>)
    requires
        a.to_multiset() == b.to_multiset(),
        equal_keys_identical(a, k),
    ensures
        sort_by(a, k) == sort_by(b, k),
{
    broadcast use vstd::seq_lib::group_to_multiset_ensures;

    lemma_sort_perm(a, k);
    lemma_sort_perm(b, k);
    lemma_sort_sorted(a, k);
    lemma_sort_sorted(b, k);
    let sa = sort_by(a, k);
    assert forall|u: T, v: T|
        #![trigger sa.contains(u), sa.contains(v)]
        sa.contains(u) && sa.contains(v) && k(u) == k(v) implies u == v by {
        assert(sa.to_multiset().count(u) > 0);
        assert(sa.to_multiset().count(v) > 0);
        assert(a.contains(u) && a.contains(v));
    }
    lemma_sorted_unique(sa, sort_by(b, k), k);
}

/// Inserting commutes with a map that keeps every key.
proof fn lemma_ins_map<T, U>(
    s: Seq<T>,
    x: T,
    k: spec_fn(T) -> Seq<Seq<char>>,
    f: spec_fn(T) -> U,
    kf: spec_fn(U) -> Seq<Seq<char>>,
)
    requires
        forall|y: T| #[trigger] kf(f(y)) == k(y),
    ensures
        ins_by(s.map_values(f), f(x), kf) == ins_by(s, x, k).map_values(f),
    decreases s.len(),
{
    assert(kf(f(x)) == k(x));
    if s.len() == 0 {
        assert(seq![f(x)] =~= seq![x].map_values(f));
    } else {
        let l = s.last();
        assert(kf(f(l)) == k(l));
        assert(s.map_values(f).last() == f(l));
        assert(s.map_values(f).drop_last() =~= s.drop_last().map_values(f));
        if key_lt(k(x), k(l)) {
            lemma_ins_map(s.drop_last(), x, k, f, kf);
            assert(ins_by(s.drop_last(), x, k).push(l).map_values(f) =~= ins_by(
                s.drop_last(),
                x,
                k,
            ).map_values(f).push(f(l)));
        } else {
            assert(s.push(x).map_values(f) =~= s.map_values(f).push(f(x)));
        }
    }
}

/// Sorting commutes with a map that keeps every key.
pub proof fn lemma_sort_map<T, U>(
    s: Seq<T>,
    k: spec_fn(T) -> Seq<Seq<char>>,
    f: spec_fn(T) -> U,
    kf: spec_fn(U) -> Seq<Seq<char>>,
)
    requires
        forall|y: T| #[trigger] kf(f(y)) == k(y),
    ensures
        sort_by(s.map_values(f), kf) == sort_by(s, k).map_values(f),
    decreases s.len(),
{
    if s.len() == 0 {
        assert(s.map_values(f) =~= Seq::<U>::empty());
        assert(sort_by(s, k).map_values(f) =~= Seq::<U>::empty());
    } else {
        assert(s.map_values(f).drop_last() =~= s.drop_last().map_values(f));
        assert(s.map_values(f).last() == f(s.last()));
        lemma_sort_map(s.drop_last(), k, f, kf);
        lemma_ins_map(sort_by(s.drop_last(), k), s.last(), k, f, kf);
    }
}

/// Mapping keeps "same elements, as often".
pub proof fn lemma_map_multiset<A, B>(a: Seq<A>, b: Seq<A>, f: spec_fn(A) -> B)
    requires
        a.to_multiset() == b.to_multiset(),
    ensures
        a.map_values(f).to_multiset() == b.map_values(f).to_multiset(),
    decreases a.len(),
{
    broadcast use vstd::seq_lib::group_to_multiset_ensures;
    broadcast use vstd::multiset::group_multiset_axioms;

    assert(a.to_multiset().len() == a.len());
    assert(b.to_multiset().len() == b.len());
    if a.len() == 0 {
        assert(a.map_values(f) =~= b.map_values(f));
    } else {
        let x = a.last();
        assert(a.to_multiset().count(x) > 0);
        assert(b.to_multiset().count(x) > 0);
        assert(b.contains(x));
        let k = choose|k: int| 0 <= k < b.len() && b[k] == x;
        let a2 = a.drop_last();
        let b2 = b.remove(k);
        assert(a =~= a2.push(x));
        assert(a2.to_multiset() =~= a.to_multiset().remove(x));
        assert(b2.to_multiset() =~= b.to_multiset().remove(x));
        lemma_map_multiset(a2, b2, f);
        assert(a.map_values(f) =~= a2.map_values(f).push(f(x)));
        assert(b2.map_values(f) =~= b.map_values(f).remove(k));
        assert(b.map_values(f)[k] == f(x));
        assert(b2.map_values(f).to_multiset() =~= b.map_values(f).to_multiset().remove(f(x)));
        assert(b.map_values(f).to_multiset().count(f(x)) > 0);
    }
}

/// `s` with every element equal to its predecessor removed (`Vec::dedup`).
pub open spec fn dedup_seq<M>(s: Seq<M>) -> Seq<M>
    decreases s.len(),
{
    if s.len() <= 1 {
        s
    } else if s[s.len() - 1] == s[s.len() - 2] {
        dedup_seq(s.drop_last())
    } else {
        dedup_seq(s.drop_last()).push(s.last())
    }
}

proof fn lemma_dedup_last<M>(s: Seq<M>)
    requires
        s.len() > 0,
    ensures
        dedup_seq(s).len() > 0,
        dedup_seq(s).last() == s.last(),
    decreases s.len(),
{
    if s.len() > 1 && s[s.len() - 1] == s[s.len() - 2] {
        lemma_dedup_last(s.drop_last());
    }
}

/// Every element kept by [`dedup_seq`] comes from the input.
pub proof fn lemma_dedup_subset<M>(s: Seq<M>, x: M)
    ensures
        dedup_seq(s).contains(x) ==> s.contains(x),
    decreases s.len(),
{
    if s.len() > 1 {
        lemma_dedup_subset(s.drop_last(), x);
        if dedup_seq(s).contains(x) && x != s.last() {
            if s[s.len() - 1] == s[s.len() - 2] {
                assert(dedup_seq(s.drop_last()).contains(x));
            } else {
                let r = dedup_seq(s.drop_last());
                let k = choose|k: int| 0 <= k < r.push(s.last()).len() && r.push(s.last())[k] == x;
                assert(r[k] == x);
            }
            let k = choose|k: int| 0 <= k < s.drop_last().len() && s.drop_last()[k] == x;
            assert(s[k] == x);
        }
        if dedup_seq(s).contains(x) && x == s.last() {
            assert(s[s.len() - 1] == x);
        }
    }
}

/// Every element of a sorted list is in the input.
pub proof fn lemma_sorted_set_subset(s: Seq<Seq<char>>, x: Seq<char>)
    ensures
        sorted_set(s).contains(x) ==> s.contains(x),
{
    broadcast use vstd::seq_lib::group_to_multiset_ensures;

    lemma_dedup_subset(sort_strs(s), x);
    lemma_sort_perm(s, key_fn::<String>());
    if sort_strs(s).contains(x) {
        assert(sort_strs(s).to_multiset().count(x) > 0);
        assert(s.to_multiset().count(x) > 0);
    }
}

/// Removes consecutive duplicates (`Vec::dedup`).
pub fn dedup_strings(v: Vec<String>) -> (r: Vec<String>)
    ensures
        strs(r@) == dedup_seq(strs(v@)),
{
    let ghost m = strs(v@);
    let mut r: Vec<String> = Vec::new();
    let mut i: usize = 0;
    while i < v.len()
        invariant
            i <= v.len(),
            m == strs(v@),
            strs(r@) == dedup_seq(m.take(i as int)),
        decreases v.len() - i,
    {
        let ghost s = m.take(i + 1);
        assert(s.drop_last() == m.take(i as int));
        assert(s.last() == v@[i as int]@);
        if i > 0 {
            proof {
                lemma_dedup_last(m.take(i as int));
            }
            assert(s[s.len() - 2] == v@[i - 1]@);
            if str_eq(v[i].as_str(), r[r.len() - 1].as_str()) {
                assert(strs(r@) == dedup_seq(s));
            } else {
                r.push(v[i].clone());
                assert(strs(r@) =~= dedup_seq(s));
            }
        } else {
            r.push(v[i].clone());
            assert(strs(r@) =~= dedup_seq(s));
        }
        i = i + 1;
    }
    assert(m.take(v.len() as int) == m);
    r
}

/// Sort then dedup — the canonical form of a set of strings.
pub open spec fn sorted_set(s: Seq<Seq<char>>) -> Seq<Seq<char>> {
    dedup_seq(sort_strs(s))
}

/// The stable sort of a list of strings.
pub open spec fn sort_strs(s: Seq<Seq<char>>) -> Seq<Seq<char>> {
    sort_by(s, key_fn::<String>())
}

/// Sorts a list of strings (`Vec::sort`).
pub fn sort_strings(v: Vec<String>) -> (r: Vec<String>)
    ensures
        strs(r@) == sort_strs(strs(v@)),
{
    let r = sort_keyed(v);
    assert(strs(r@) == models(r@));
    r
}

/// Sort then dedup.
pub fn sort_dedup(v: Vec<String>) -> (r: Vec<String>)
    ensures
        strs(r@) == sorted_set(strs(v@)),
{
    dedup_strings(sort_strings(v))
}

/// Removing consecutive duplicates keeps every value.
pub proof fn lemma_dedup_keeps(s: Seq<Seq<char>>, x: Seq<char>)
    ensures
        s.contains(x) ==> crate::sort::dedup_seq(s).contains(x),
    decreases s.len(),
{
    if s.len() > 1 {
        let t = s.drop_last();
        lemma_dedup_keeps(t, x);
        if s.contains(x) {
            let i = choose|i: int| 0 <= i < s.len() && s[i] == x;
            let dt = crate::sort::dedup_seq(t);
            if i < s.len() - 1 {
                assert(t[i] == x);
                assert(dt.contains(x));
                let j = choose|j: int| 0 <= j < dt.len() && dt[j] == x;
                if s[s.len() - 1] != s[s.len() - 2] {
                    assert(dt.push(s.last())[j] == x);
                }
            } else if s[s.len() - 1] == s[s.len() - 2] {
                assert(t[s.len() - 2] == x);
                assert(dt.contains(x));
            } else {
                assert(dt.push(s.last())[dt.len() as int] == x);
            }
        }
    }
}

/// The members of a sorted set are those of its input.
pub proof fn lemma_sorted_set_members(s: Seq<Seq<char>>, x: Seq<char>)
    ensures
        sorted_set(s).contains(x) <==> s.contains(x),
{
    broadcast use vstd::seq_lib::group_to_multiset_ensures;

    lemma_sorted_set_subset(s, x);
    lemma_sort_perm(s, key_fn::<String>());
    if s.contains(x) {
        assert(s.to_multiset().count(x) > 0);
        assert(sort_strs(s).to_multiset().count(x) > 0);
        lemma_dedup_keeps(sort_strs(s), x);
    }
}


/// The elements of `s` whose key is `key`, in order.
pub open spec fn of_key<T>(s: Seq<T>, k: spec_fn(T) -> Seq<Seq<char>>, key: Seq<Seq<char>>) -> Seq<T>
    decreases s.len(),
{
    if s.len() == 0 {
        s
    } else if k(s.last()) == key {
        of_key(s.drop_last(), k, key).push(s.last())
    } else {
        of_key(s.drop_last(), k, key)
    }
}

proof fn lemma_ins_of_key<T>(s: Seq<T>, x: T, k: spec_fn(T) -> Seq<Seq<char>>, key: Seq<Seq<char>>)
    ensures
        of_key(ins_by(s, x, k), k, key) == (if k(x) == key {
            of_key(s, k, key).push(x)
        } else {
            of_key(s, k, key)
        }),
    decreases s.len(),
{
    if s.len() == 0 {
        assert(seq![x].drop_last() =~= s);
    } else if key_lt(k(x), k(s.last())) {
        lemma_ins_of_key(s.drop_last(), x, k, key);
        lemma_key_irrefl(k(x));
        let r = ins_by(s.drop_last(), x, k);
        assert(r.push(s.last()).drop_last() =~= r);
    } else {
        assert(s.push(x).drop_last() =~= s);
    }
}

proof fn lemma_sort_of_key<T>(s: Seq<T>, k: spec_fn(T) -> Seq<Seq<char>>, key: Seq<Seq<char>>)
    ensures
        of_key(sort_by(s, k), k, key) == of_key(s, k, key),
    decreases s.len(),
{
    if s.len() > 0 {
        lemma_sort_of_key(s.drop_last(), k, key);
        lemma_ins_of_key(sort_by(s.drop_last(), k), s.last(), k, key);
    }
}

proof fn lemma_of_key_source<T>(s: Seq<T>, k: spec_fn(T) -> Seq<Seq<char>>, key: Seq<Seq<char>>)
    ensures
        of_key(s, k, key).len() > 0 ==> exists|i: int| 0 <= i < s.len() && k(#[trigger] s[i]) == key,
    decreases s.len(),
{
    if s.len() > 0 {
        lemma_of_key_source(s.drop_last(), k, key);
        if of_key(s.drop_last(), k, key).len() > 0 {
            let i = choose|i: int| 0 <= i < s.drop_last().len() && k(#[trigger] s.drop_last()[i]) == key;
            assert(s[i] == s.drop_last()[i]);
        }
        if k(s.last()) == key {
            assert(k(s[s.len() - 1]) == key);
        }
    }
}

proof fn lemma_sorted_by_key_classes<T>(a: Seq<T>, b: Seq<T>, k: spec_fn(T) -> Seq<Seq<char>>)
    requires
        sorted_by(a, k),
        sorted_by(b, k),
        forall|key: Seq<Seq<char>>| #[trigger] of_key(a, k, key) == of_key(b, k, key),
    ensures
        a == b,
    decreases a.len() + b.len(),
{
    if a.len() == 0 && b.len() == 0 {
        assert(a =~= b);
    } else if a.len() == 0 {
        assert(of_key(b, k, k(b.last())).len() > 0);
        assert(of_key(a, k, k(b.last())).len() == 0);
    } else if b.len() == 0 {
        assert(of_key(a, k, k(a.last())).len() > 0);
        assert(of_key(b, k, k(a.last())).len() == 0);
    } else {
        let x = a.last();
        let y = b.last();
        let kx = k(x);
        let ky = k(y);
        assert(of_key(a, k, kx).len() > 0);
        assert(of_key(b, k, ky).len() > 0);
        lemma_of_key_source(b, k, kx);
        lemma_of_key_source(a, k, ky);
        assert(of_key(b, k, kx) == of_key(a, k, kx));
        assert(of_key(a, k, ky) == of_key(b, k, ky));
        let i = choose|i: int| 0 <= i < b.len() && k(#[trigger] b[i]) == kx;
        let j = choose|j: int| 0 <= j < a.len() && k(#[trigger] a[j]) == ky;
        if i < b.len() - 1 {
            assert(!key_lt(k(b[b.len() - 1]), k(b[i])));
        }
        if j < a.len() - 1 {
            assert(!key_lt(k(a[a.len() - 1]), k(a[j])));
        }
        lemma_key_total(kx, ky);
        assert(kx == ky);
        assert(of_key(a, k, kx).last() == x);
        assert(of_key(b, k, kx).last() == y);
        assert(x == y);
        let a2 = a.drop_last();
        let b2 = b.drop_last();
        assert forall|key: Seq<Seq<char>>| #[trigger] of_key(a2, k, key) == of_key(b2, k, key) by {
            assert(of_key(a, k, key) == of_key(b, k, key));
            if key == kx {
                assert(of_key(a2, k, key) == of_key(a, k, key).drop_last());
                assert(of_key(b2, k, key) == of_key(b, k, key).drop_last());
            }
        }
        lemma_sorted_by_key_classes(a2, b2, k);
        assert(a =~= a2.push(x));
        assert(b =~= b2.push(y));
    }
}

/// The stable sort depends only on each key's elements in their order:
/// two sequences whose elements of every key are the same, in the same
/// relative order, sort alike (whatever the order between keys).
pub proof fn lemma_sort_by_key_classes<T>(a: Seq<T>, b: Seq<T>, k: spec_fn(T) -> Seq<Seq<char>>)
    requires
        forall|key: Seq<Seq<char>>| #[trigger] of_key(a, k, key) == of_key(b, k, key),
    ensures
        sort_by(a, k) == sort_by(b, k),
{
    lemma_sort_sorted(a, k);
    lemma_sort_sorted(b, k);
    assert forall|key: Seq<Seq<char>>| #[trigger] of_key(sort_by(a, k), k, key) == of_key(sort_by(b, k), k, key) by {
        lemma_sort_of_key(a, k, key);
        lemma_sort_of_key(b, k, key);
        assert(of_key(a, k, key) == of_key(b, k, key));
    }
    lemma_sorted_by_key_classes(sort_by(a, k), sort_by(b, k), k);
}

/// Sorting an already sorted sequence leaves it as it is; in particular
/// sorting twice is sorting once.
pub proof fn lemma_sort_idempotent<T>(a: Seq<T>, k: spec_fn(T) -> Seq<Seq<char>>)
    ensures
        sorted_by(a, k) ==> sort_by(a, k) == a,
        sort_by(sort_by(a, k), k) == sort_by(a, k),
{
    lemma_sort_sorted(a, k);
    assert forall|key: Seq<Seq<char>>| #[trigger] of_key(sort_by(a, k), k, key) == of_key(a, k, key) by {
        lemma_sort_of_key(a, k, key);
    }
    if sorted_by(a, k) {
        lemma_sorted_by_key_classes(sort_by(a, k), a, k);
    }
    let s = sort_by(a, k);
    lemma_sort_sorted(s, k);
    assert forall|key: Seq<Seq<char>>| #[trigger] of_key(sort_by(s, k), k, key) == of_key(s, k, key) by {
        lemma_sort_of_key(s, k, key);
    }
    lemma_sorted_by_key_classes(sort_by(s, k), s, k);
}

/// Every element of the sorted sequence comes from the input.
pub proof fn lemma_sort_members<T>(a: Seq<T>, k: spec_fn(T) -> Seq<Seq<char>>, x: T)
    ensures
        sort_by(a, k).contains(x) ==> a.contains(x),
{
    broadcast use vstd::seq_lib::group_to_multiset_ensures;

    lemma_sort_perm(a, k);
    if sort_by(a, k).contains(x) {
        assert(sort_by(a, k).to_multiset().count(x) > 0);
        assert(a.to_multiset().count(x) > 0);
    }
}

/// Strictly ascending text order.
pub open spec fn strictly_ascending(s: Seq<Seq<char>>) -> bool {
    forall|i: int, j: int| 0 <= i < j < s.len() ==> crate::text::lex_lt(#[trigger] s[i], #[trigger] s[j])
}

proof fn lemma_dedup_sorted_strict(s: Seq<Seq<char>>)
    requires
        sorted_by(s, key_fn::<String>()),
    ensures
        strictly_ascending(dedup_seq(s)),
    decreases s.len(),
{
    if s.len() > 1 {
        let t = s.drop_last();
        assert(sorted_by(t, key_fn::<String>())) by {
            assert forall|i: int, j: int| 0 <= i < j < t.len() implies !key_lt(
                #[trigger] key_fn::<String>()(t[j]),
                #[trigger] key_fn::<String>()(t[i]),
            ) by {
                assert(t[i] == s[i] && t[j] == s[j]);
            }
        }
        lemma_dedup_sorted_strict(t);
        let d = dedup_seq(t);
        if s[s.len() - 1] != s[s.len() - 2] {
            let x = s.last();
            let y = s[s.len() - 2];
            assert(!key_lt(key_fn::<String>()(x), key_fn::<String>()(y)));
            assert(crate::text::lex_lt(y, x)) by {
                let kx = key_fn::<String>()(x);
                let ky = key_fn::<String>()(y);
                assert(kx[0] == x && ky[0] == y);
                assert(kx.drop_first().len() == 0 && ky.drop_first().len() == 0);
                crate::text::lemma_lex_total(x, y);
            }
            let e = d.push(x);
            assert forall|i: int, j: int| 0 <= i < j < e.len() implies crate::text::lex_lt(
                #[trigger] e[i],
                #[trigger] e[j],
            ) by {
                if j == e.len() - 1 {
                    assert(e[i] == d[i]);
                    lemma_dedup_subset(t, d[i]);
                    assert(d.contains(d[i]));
                    let k = choose|k: int| 0 <= k < t.len() && t[k] == d[i];
                    if k < t.len() - 1 {
                        assert(!key_lt(key_fn::<String>()(s[t.len() - 1]), key_fn::<String>()(s[k])));
                        let kk = key_fn::<String>()(s[k]);
                        let ky = key_fn::<String>()(y);
                        assert(kk[0] == s[k] && ky[0] == y);
                        assert(kk.drop_first().len() == 0 && ky.drop_first().len() == 0);
                        crate::text::lemma_lex_total(s[k], y);
                        if s[k] != y {
                            crate::text::lemma_lex_trans(s[k], y, x);
                        }
                    }
                } else {
                    assert(e[i] == d[i] && e[j] == d[j]);
                }
            }
        }
    }
}

/// A sorted set of texts is strictly ascending.
pub proof fn lemma_sorted_set_strict(s: Seq<Seq<char>>)
    ensures
        strictly_ascending(sorted_set(s)),
{
    lemma_sort_sorted(s, key_fn::<String>());
    lemma_dedup_sorted_strict(sort_strs(s));
}
} // verus!
