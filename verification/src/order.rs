//! Byte-wise lexicographic order on strings, the order `sort_by_key` on a
//! `String` key uses, together with a stable insertion sort at the
//! specification level and the exec comparison and substring search.

use vstd::prelude::*;
use vstd::string::StringSliceAdditionalSpecFns;

verus! {

/// Strict byte-wise lexicographic order.
pub open spec fn bytes_lt(a: Seq<u8>, b: Seq<u8>) -> bool
    decreases a.len(),
{
    if b.len() == 0 {
        false
    } else if a.len() == 0 {
        true
    } else if a[0] < b[0] {
        true
    } else if a[0] > b[0] {
        false
    } else {
        bytes_lt(a.drop_first(), b.drop_first())
    }
}

pub proof fn lemma_bytes_lt_asymmetric(a: Seq<u8>, b: Seq<u8>)
    ensures
        !(bytes_lt(a, b) && bytes_lt(b, a)),
    decreases a.len(),
{
    if a.len() > 0 && b.len() > 0 && a[0] == b[0] {
        lemma_bytes_lt_asymmetric(a.drop_first(), b.drop_first());
    }
}

pub proof fn lemma_bytes_lt_transitive(a: Seq<u8>, b: Seq<u8>, c: Seq<u8>)
    ensures
        bytes_lt(a, b) && bytes_lt(b, c) ==> bytes_lt(a, c),
    decreases a.len(),
{
    if a.len() > 0 && b.len() > 0 && c.len() > 0 && a[0] == b[0] && b[0] == c[0] {
        lemma_bytes_lt_transitive(a.drop_first(), b.drop_first(), c.drop_first());
    }
}

/// `bytes_lt` restricted to the parts after a common prefix of length `i`.
pub proof fn lemma_bytes_lt_common_prefix(a: Seq<u8>, b: Seq<u8>, i: int)
    requires
        0 <= i <= a.len(),
        0 <= i <= b.len(),
        forall|k: int| 0 <= k < i ==> a[k] == b[k],
    ensures
        bytes_lt(a, b) == bytes_lt(a.skip(i), b.skip(i)),
    decreases i,
{
    if i == 0 {
        assert(a.skip(0) =~= a);
        assert(b.skip(0) =~= b);
    } else {
        lemma_bytes_lt_common_prefix(a.drop_first(), b.drop_first(), i - 1);
        assert(a.drop_first().skip(i - 1) =~= a.skip(i));
        assert(b.drop_first().skip(i - 1) =~= b.skip(i));
    }
}

/// Byte-wise comparison of two strings: whether `a` sorts strictly before `b`.
pub fn str_lt(a: &str, b: &str) -> (r: bool)
    ensures
        r == bytes_lt(a.spec_bytes(), b.spec_bytes()),
{
    let x = a.as_bytes();
    let y = b.as_bytes();
    let mut i: usize = 0;
    loop
        invariant
            x@ == a.spec_bytes(),
            y@ == b.spec_bytes(),
            0 <= i <= x@.len(),
            0 <= i <= y@.len(),
            forall|k: int| 0 <= k < i ==> x@[k] == y@[k],
        decreases x@.len() - i,
    {
        proof {
            lemma_bytes_lt_common_prefix(x@, y@, i as int);
        }
        if i == y.len() {
            return false;
        }
        if i == x.len() {
            return true;
        }
        if x[i] < y[i] {
            return true;
        }
        if x[i] > y[i] {
            return false;
        }
        i = i + 1;
    }
}

/// Insert `x` into `s` before the first element that `x` sorts strictly
/// below; after equal elements, so that a sort built on it is stable.
pub open spec fn insert_by<A>(x: A, s: Seq<A>, lt: spec_fn(A, A) -> bool) -> Seq<A>
    decreases s.len(),
{
    if s.len() == 0 {
        seq![x]
    } else if lt(x, s[0]) {
        seq![x] + s
    } else {
        seq![s[0]] + insert_by(x, s.drop_first(), lt)
    }
}

/// Stable insertion sort: elements that the order does not tell apart keep
/// their relative position.
pub open spec fn stable_sort<A>(s: Seq<A>, lt: spec_fn(A, A) -> bool) -> Seq<A>
    decreases s.len(),
{
    if s.len() == 0 {
        Seq::empty()
    } else {
        insert_by(s.last(), stable_sort(s.drop_last(), lt), lt)
    }
}

/// No later element sorts strictly below an earlier one.
pub open spec fn sorted_by_lt<A>(s: Seq<A>, lt: spec_fn(A, A) -> bool) -> bool {
    forall|i: int, j: int| 0 <= i < j < s.len() ==> !lt(s[j], s[i])
}

/// `insert_by` lands at the position `j` that an exec scan finds: everything
/// before `j` is not strictly above `x`, and the element at `j` (if any) is.
pub proof fn lemma_insert_by_at<A>(x: A, s: Seq<A>, lt: spec_fn(A, A) -> bool, j: int)
    requires
        0 <= j <= s.len(),
        forall|k: int| 0 <= k < j ==> !lt(x, #[trigger] s[k]),
        j < s.len() ==> lt(x, s[j]),
    ensures
        insert_by(x, s, lt) == s.insert(j, x),
    decreases s.len(),
{
    if s.len() == 0 {
        assert(insert_by(x, s, lt) =~= s.insert(0, x));
    } else if j == 0 {
        assert(seq![x] + s =~= s.insert(0, x));
    } else {
        lemma_insert_by_at(x, s.drop_first(), lt, j - 1);
        assert(seq![s[0]] + s.drop_first().insert(j - 1, x) =~= s.insert(j, x));
    }
}

/// Inserting adds exactly one occurrence of `x` to the contents.
pub proof fn lemma_insert_by_multiset<A>(x: A, s: Seq<A>, lt: spec_fn(A, A) -> bool)
    ensures
        insert_by(x, s, lt).to_multiset() =~= s.to_multiset().insert(x),
    decreases s.len(),
{
    broadcast use vstd::seq_lib::group_to_multiset_ensures;

    assert(seq![x] =~= Seq::<A>::empty().push(x));
    if s.len() == 0 {
    } else if lt(x, s[0]) {
        vstd::seq_lib::lemma_multiset_commutative(seq![x], s);
    } else {
        let rest = insert_by(x, s.drop_first(), lt);
        lemma_insert_by_multiset(x, s.drop_first(), lt);
        vstd::seq_lib::lemma_multiset_commutative(seq![s[0]], rest);
        assert(s =~= seq![s[0]] + s.drop_first());
        vstd::seq_lib::lemma_multiset_commutative(seq![s[0]], s.drop_first());
        assert(seq![s[0]] =~= Seq::<A>::empty().push(s[0]));
    }
}

/// Sorting keeps the contents.
pub proof fn lemma_stable_sort_multiset<A>(s: Seq<A>, lt: spec_fn(A, A) -> bool)
    ensures
        stable_sort(s, lt).to_multiset() =~= s.to_multiset(),
    decreases s.len(),
{
    broadcast use vstd::seq_lib::group_to_multiset_ensures;

    if s.len() > 0 {
        lemma_stable_sort_multiset(s.drop_last(), lt);
        lemma_insert_by_multiset(s.last(), stable_sort(s.drop_last(), lt), lt);
        assert(s =~= s.drop_last().push(s.last()));
    }
}

/// Inserting into a sorted sequence keeps it sorted, for an order that is
/// transitive and has no cycle of two.
pub proof fn lemma_insert_by_sorted<A>(x: A, s: Seq<A>, lt: spec_fn(A, A) -> bool)
    requires
        sorted_by_lt(s, lt),
        forall|p: A, q: A, r: A| #[trigger] lt(p, q) && #[trigger] lt(q, r) ==> lt(p, r),
        forall|p: A, q: A| !(#[trigger] lt(p, q) && #[trigger] lt(q, p)),
    ensures
        sorted_by_lt(insert_by(x, s, lt), lt),
    decreases s.len(),
{
    broadcast use vstd::seq_lib::group_to_multiset_ensures;

    if s.len() == 0 {
    } else if lt(x, s[0]) {
        let out = seq![x] + s;
        assert forall|i: int, j: int| 0 <= i < j < out.len() implies !lt(out[j], out[i]) by {
            if i == 0 {
                if j > 1 {
                    assert(!lt(s[j - 1], s[0]));
                }
            }
        }
    } else {
        let rest = insert_by(x, s.drop_first(), lt);
        assert(sorted_by_lt(s.drop_first(), lt)) by {
            assert(forall|i: int, j: int|
                0 <= i < j < s.drop_first().len() ==> !lt(#[trigger] s.drop_first()[j],
                #[trigger] s.drop_first()[i]));
        }
        lemma_insert_by_sorted(x, s.drop_first(), lt);
        lemma_insert_by_multiset(x, s.drop_first(), lt);
        let out = seq![s[0]] + rest;
        assert forall|i: int, j: int| 0 <= i < j < out.len() implies !lt(out[j], out[i]) by {
            if i == 0 {
                let y = out[j];
                assert(rest.contains(y)) by {
                    assert(rest[j - 1] == y);
                }
                assert(rest.to_multiset().count(y) > 0);
                if y == x {
                    assert(!lt(x, s[0]));
                } else {
                    assert(s.drop_first().to_multiset().count(y) > 0);
                    assert(s.drop_first().contains(y));
                    let m = choose|m: int| 0 <= m < s.drop_first().len()
                        && s.drop_first()[m] == y;
                    assert(!lt(s[m + 1], s[0]));
                }
            }
        }
    }
}

/// A stable sort is sorted, for an order that is transitive and has no cycle
/// of two.
pub proof fn lemma_stable_sort_sorted<A>(s: Seq<A>, lt: spec_fn(A, A) -> bool)
    requires
        forall|p: A, q: A, r: A| #[trigger] lt(p, q) && #[trigger] lt(q, r) ==> lt(p, r),
        forall|p: A, q: A| !(#[trigger] lt(p, q) && #[trigger] lt(q, p)),
    ensures
        sorted_by_lt(stable_sort(s, lt), lt),
    decreases s.len(),
{
    if s.len() > 0 {
        lemma_stable_sort_sorted(s.drop_last(), lt);
        lemma_insert_by_sorted(s.last(), stable_sort(s.drop_last(), lt), lt);
    }
}

/// One step of filtering a growing prefix.
pub proof fn lemma_filter_take_succ<A>(s: Seq<A>, pred: spec_fn(A) -> bool, i: int)
    requires
        0 <= i < s.len(),
    ensures
        pred(s[i]) ==> s.take(i + 1).filter(pred) == s.take(i).filter(pred).push(s[i]),
        !pred(s[i]) ==> s.take(i + 1).filter(pred) == s.take(i).filter(pred),
{
    reveal_with_fuel(Seq::filter, 2);
    assert(s.take(i + 1).drop_last() =~= s.take(i));
    assert(s.take(i + 1).last() == s[i]);
    assert(s.take(i + 1).len() == i + 1);
}

/// Mapping a function over a sequence commutes with inserting one element.
pub proof fn lemma_map_values_insert<A, B>(s: Seq<A>, j: int, x: A, f: spec_fn(A) -> B)
    requires
        0 <= j <= s.len(),
    ensures
        s.insert(j, x).map_values(f) =~= s.map_values(f).insert(j, f(x)),
{
    s.insert_ensures(j, x);
    s.map_values(f).insert_ensures(j, f(x));
}

/// `nee` occurs somewhere inside `hay` as a contiguous run of bytes.
pub open spec fn is_sub(hay: Seq<u8>, nee: Seq<u8>) -> bool {
    exists|k: int|
        0 <= k <= hay.len() - nee.len() && #[trigger] hay.subrange(k, k + nee.len()) == nee
}

fn match_at(hay: &[u8], nee: &[u8], k: usize) -> (r: bool)
    requires
        k + nee@.len() <= hay@.len(),
    ensures
        r == (hay@.subrange(k as int, k as int + nee@.len()) == nee@),
{
    let hay_len = hay.len();
    let mut j: usize = 0;
    while j < nee.len()
        invariant
            k + nee@.len() <= hay@.len(),
            hay_len == hay@.len(),
            0 <= j <= nee@.len(),
            forall|t: int| 0 <= t < j ==> hay@[k + t] == nee@[t],
        decreases nee@.len() - j,
    {
        if hay[k + j] != nee[j] {
            assert(hay@.subrange(k as int, k as int + nee@.len())[j as int] != nee@[j as int]);
            return false;
        }
        j = j + 1;
    }
    assert(hay@.subrange(k as int, k as int + nee@.len()) =~= nee@);
    true
}

/// Substring search over bytes.
pub fn find_sub(hay: &[u8], nee: &[u8]) -> (r: bool)
    ensures
        r == is_sub(hay@, nee@),
{
    if nee.len() > hay.len() {
        return false;
    }
    let last = hay.len() - nee.len();
    let mut k: usize = 0;
    loop
        invariant
            nee@.len() <= hay@.len(),
            last == hay@.len() - nee@.len(),
            0 <= k <= last,
            forall|k2: int| 0 <= k2 < k ==> #[trigger] hay@.subrange(k2, k2 + nee@.len()) != nee@,
        decreases last - k,
    {
        if match_at(hay, nee, k) {
            return true;
        }
        if k == last {
            return false;
        }
        k = k + 1;
    }
}

} // verus!
