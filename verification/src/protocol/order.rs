//! The canonical order of plan entries and a stable sort by it.
use super::bounded::BoundedString;
use crate::text::chars_of;
use vstd::prelude::*;

verus! {

broadcast use vstd::seq_lib::group_to_multiset_ensures;

/// Strict lexicographic order of texts by code point (the order of
/// `str` comparison on the UTF-8 encodings).
pub open spec fn text_lt(a: Seq<char>, b: Seq<char>) -> bool
    decreases a.len(),
{
    if a.len() == 0 {
        b.len() > 0
    } else if b.len() == 0 {
        false
    } else if a[0] != b[0] {
        a[0] < b[0]
    } else {
        text_lt(a.drop_first(), b.drop_first())
    }
}

pub open spec fn text_le(a: Seq<char>, b: Seq<char>) -> bool {
    a == b || text_lt(a, b)
}

pub proof fn lemma_text_trichotomy(a: Seq<char>, b: Seq<char>)
    ensures
        a == b || text_lt(a, b) || text_lt(b, a),
        !(text_lt(a, b) && text_lt(b, a)),
        !text_lt(a, a),
    decreases a.len(),
{
    if a.len() > 0 && b.len() > 0 && a[0] == b[0] {
        lemma_text_trichotomy(a.drop_first(), b.drop_first());
        if a.drop_first() == b.drop_first() {
            assert(a =~= seq![a[0]] + a.drop_first());
            assert(b =~= seq![b[0]] + b.drop_first());
        }
    }
    if a.len() > 0 {
        lemma_text_trichotomy(a.drop_first(), a.drop_first());
    }
}

pub proof fn lemma_text_lt_trans(a: Seq<char>, b: Seq<char>, c: Seq<char>)
    requires
        text_lt(a, b),
        text_lt(b, c),
    ensures
        text_lt(a, c),
    decreases a.len(),
{
    if a.len() > 0 && b.len() > 0 && c.len() > 0 && a[0] == b[0] && b[0] == c[0] {
        lemma_text_lt_trans(a.drop_first(), b.drop_first(), c.drop_first());
    }
}

/// Three-way comparison of texts: negative, zero or positive as `a` is
/// before, equal to, or after `b`.
pub fn text_compare(a: &[char], b: &[char]) -> (r: i8)
    ensures
        (r < 0) == text_lt(a@, b@),
        (r == 0) == (a@ == b@),
        (r > 0) == text_lt(b@, a@),
{
    proof {
        lemma_text_trichotomy(a@, b@);
    }
    let mut i: usize = 0;
    proof {
        assert(a@.skip(0) =~= a@);
        assert(b@.skip(0) =~= b@);
    }
    while i < a.len() && i < b.len()
        invariant
            i <= a.len(),
            i <= b.len(),
            a@.take(i as int) == b@.take(i as int),
            text_lt(a@, b@) == text_lt(a@.skip(i as int), b@.skip(i as int)),
            text_lt(b@, a@) == text_lt(b@.skip(i as int), a@.skip(i as int)),
        decreases a.len() - i,
    {
        if a[i] != b[i] {
            proof {
                assert(a@.skip(i as int)[0] == a@[i as int]);
                assert(b@.skip(i as int)[0] == b@[i as int]);
                assert(a@[i as int] != b@[i as int]);
            }
            if a[i] < b[i] {
                return -1;
            } else {
                return 1;
            }
        }
        proof {
            assert(a@.skip(i as int).drop_first() =~= a@.skip(i + 1));
            assert(b@.skip(i as int).drop_first() =~= b@.skip(i + 1));
            assert(a@.take(i + 1) =~= a@.take(i as int).push(a@[i as int]));
            assert(b@.take(i + 1) =~= b@.take(i as int).push(b@[i as int]));
        }
        i = i + 1;
    }
    if a.len() == b.len() {
        proof {
            assert(a@.take(i as int) =~= a@);
            assert(b@.take(i as int) =~= b@);
        }
        0
    } else if a.len() < b.len() {
        proof {
            assert(a@.skip(i as int).len() == 0);
            assert(a@ != b@);
        }
        -1
    } else {
        proof {
            assert(b@.skip(i as int).len() == 0);
            assert(a@ != b@);
        }
        1
    }
}

/// Types whose values are put in a canonical order, a total preorder on a key.
pub trait CanonicalOrder: Sized {
    spec fn key_le(&self, other: &Self) -> bool;

    proof fn lemma_key_total(a: &Self, b: &Self)
        ensures
            a.key_le(b) || b.key_le(a),
    ;

    proof fn lemma_key_trans(a: &Self, b: &Self, c: &Self)
        requires
            a.key_le(b),
            b.key_le(c),
        ensures
            a.key_le(c),
    ;

    fn le(&self, other: &Self) -> (r: bool)
        ensures
            r == self.key_le(other),
    ;

    fn copy(&self) -> (r: Self)
        ensures
            r == *self,
    ;
}

impl<const MAX: usize> CanonicalOrder for BoundedString<MAX> {
    open spec fn key_le(&self, other: &Self) -> bool {
        text_le(self@, other@)
    }

    proof fn lemma_key_total(a: &Self, b: &Self) {
        lemma_text_trichotomy(a@, b@);
    }

    proof fn lemma_key_trans(a: &Self, b: &Self, c: &Self) {
        if a@ != b@ && b@ != c@ {
            lemma_text_lt_trans(a@, b@, c@);
        }
    }

    fn le(&self, other: &Self) -> (r: bool) {
        let x = chars_of(self.as_str());
        let y = chars_of(other.as_str());
        text_compare(x.as_slice(), y.as_slice()) <= 0
    }

    fn copy(&self) -> (r: Self) {
        self.clone()
    }
}

/// `s` is ordered by the canonical order.
pub open spec fn canonically_sorted<T: CanonicalOrder>(s: Seq<T>) -> bool {
    forall|i: int, j: int| 0 <= i < j < s.len() ==> #[trigger] s[i].key_le(&#[trigger] s[j])
}

/// A stable insertion sort: the result is ordered and holds the same items;
/// an ordered input comes back as it was.
pub fn sort_canonical<T: CanonicalOrder>(v: &Vec<T>) -> (r: Vec<T>)
    ensures
        canonically_sorted(r@),
        r@.to_multiset() == v@.to_multiset(),
        canonically_sorted(v@) ==> r@ == v@,
{
    let mut r: Vec<T> = Vec::new();
    let mut i: usize = 0;
    while i < v.len()
        invariant
            i <= v.len(),
            canonically_sorted(r@),
            r@.to_multiset() == v@.take(i as int).to_multiset(),
            canonically_sorted(v@) ==> r@ == v@.take(i as int),
        decreases v.len() - i,
    {
        let x = v[i].copy();
        let mut p: usize = 0;
        while p < r.len() && r[p].le(&x)
            invariant
                p <= r.len(),
                forall|j: int| 0 <= j < p ==> (#[trigger] r@[j]).key_le(&x),
                i < v.len(),
                x == v@[i as int],
                canonically_sorted(v@) ==> r@ == v@.take(i as int),
            decreases r.len() - p,
        {
            p = p + 1;
        }
        let ghost old_r = r@;
        proof {
            if p < r.len() {
                T::lemma_key_total(&r@[p as int], &x);
            }
        }
        r.insert(p, x);
        proof {
            assert(r@ == old_r.insert(p as int, x));
            assert forall|a: int, b: int| 0 <= a < b < r@.len() implies #[trigger] r@[a].key_le(
                &#[trigger] r@[b],
            ) by {
                if a < p && b < p {
                    assert(old_r[a].key_le(&old_r[b]));
                } else if a < p && b == p {
                } else if a < p && b > p {
                    assert(old_r[a].key_le(&old_r[b - 1]));
                } else if a == p && b > p {
                    T::lemma_key_total(&old_r[p as int], &x);
                    if p + 1 < b {
                        assert(old_r[p as int].key_le(&old_r[b - 1]));
                        T::lemma_key_trans(&x, &old_r[p as int], &old_r[b - 1]);
                    }
                } else {
                    assert(old_r[a - 1].key_le(&old_r[b - 1]));
                }
            }
            vstd::seq_lib::to_multiset_insert(old_r, p as int, x);
            assert(v@.take(i + 1) =~= v@.take(i as int).push(v@[i as int]));
            vstd::seq_lib::to_multiset_build(v@.take(i as int), v@[i as int]);
            if canonically_sorted(v@) {
                if p < old_r.len() {
                    assert(old_r[p as int] == v@[p as int]);
                    assert(v@[p as int].key_le(&v@[i as int]));
                }
                assert(r@ =~= v@.take(i + 1));
            }
        }
        i = i + 1;
    }
    proof {
        assert(v@.take(v.len() as int) =~= v@);
    }
    r
}

} // verus!
