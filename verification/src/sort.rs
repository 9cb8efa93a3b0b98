//! Stable sorting by a total preorder, and the lexicographic order of texts.

use vstd::prelude::*;
use crate::text::char_code;

verus! {

/// Lexicographic order of texts by code point: the order of `String`'s `Ord`
/// (UTF-8 byte order is code point order).
pub open spec fn text_lt(a: Seq<char>, b: Seq<char>) -> bool
    decreases a.len(),
{
    if b.len() == 0 {
        false
    } else if a.len() == 0 {
        true
    } else if a[0] != b[0] {
        (a[0] as int) < (b[0] as int)
    } else {
        text_lt(a.drop_first(), b.drop_first())
    }
}

/// No text is before itself.
pub proof fn lemma_text_lt_irreflexive(a: Seq<char>)
    ensures
        !text_lt(a, a),
    decreases a.len(),
{
    if a.len() > 0 {
        lemma_text_lt_irreflexive(a.drop_first());
    }
}

/// The text order is transitive.
pub proof fn lemma_text_lt_transitive(a: Seq<char>, b: Seq<char>, c: Seq<char>)
    requires
        text_lt(a, b),
        text_lt(b, c),
    ensures
        text_lt(a, c),
    decreases a.len(),
{
    if a.len() > 0 && b.len() > 0 && c.len() > 0 && a[0] == b[0] && b[0] == c[0] {
        lemma_text_lt_transitive(a.drop_first(), b.drop_first(), c.drop_first());
    }
}

/// Two different texts are ordered one way or the other.
pub proof fn lemma_text_lt_total(a: Seq<char>, b: Seq<char>)
    ensures
        a == b || text_lt(a, b) || text_lt(b, a),
    decreases a.len(),
{
    if a.len() > 0 && b.len() > 0 && a[0] == b[0] {
        lemma_text_lt_total(a.drop_first(), b.drop_first());
        if a.drop_first() == b.drop_first() {
            assert(a =~= seq![a[0]] + a.drop_first());
            assert(b =~= seq![b[0]] + b.drop_first());
        }
    } else if a.len() == 0 && b.len() == 0 {
        assert(a =~= b);
    }
}

/// A text is never both before and after another.
pub proof fn lemma_text_lt_asymmetric(a: Seq<char>, b: Seq<char>)
    ensures
        !(text_lt(a, b) && text_lt(b, a)),
{
    if text_lt(a, b) && text_lt(b, a) {
        lemma_text_lt_transitive(a, b, a);
        lemma_text_lt_irreflexive(a);
    }
}

/// Whether `a` comes before `b` in the text order.
pub fn text_less(a: &[char], b: &[char]) -> (r: bool)
    ensures
        r == text_lt(a@, b@),
{
    let mut i: usize = 0;
    assert(a@.skip(0) =~= a@);
    assert(b@.skip(0) =~= b@);
    while i < a.len() && i < b.len() && a[i] == b[i]
        invariant
            i <= a@.len(),
            i <= b@.len(),
            text_lt(a@, b@) == text_lt(a@.skip(i as int), b@.skip(i as int)),
        decreases a@.len() - i,
    {
        assert(a@.skip(i as int).drop_first() =~= a@.skip(i + 1));
        assert(b@.skip(i as int).drop_first() =~= b@.skip(i + 1));
        i += 1;
    }
    if i == b.len() {
        false
    } else if i == a.len() {
        true
    } else {
        assert(a@.skip(i as int)[0] == a@[i as int]);
        assert(b@.skip(i as int)[0] == b@[i as int]);
        char_code(a[i]) < char_code(b[i])
    }
}

/// A total preorder on values of a type, with an executable comparison.
pub trait SortKey: Sized {
    /// `self` may come before `other`.
    spec fn key_le(&self, other: &Self) -> bool;

    /// Whether `self` may come before `other`.
    fn le(&self, other: &Self) -> (r: bool)
        ensures
            r == self.key_le(other),
    ;

    /// Any two values are ordered one way or the other.
    proof fn lemma_total(a: &Self, b: &Self)
        ensures
            a.key_le(b) || b.key_le(a),
    ;

    /// The preorder is transitive.
    proof fn lemma_transitive(a: &Self, b: &Self, c: &Self)
        requires
            a.key_le(b),
            b.key_le(c),
        ensures
            a.key_le(c),
    ;
}

/// `s` is in order.
pub open spec fn sorted_by_key<T: SortKey>(s: Seq<T>) -> bool {
    forall|k: int, l: int| 0 <= k < l < s.len() ==> #[trigger] s[k].key_le(&#[trigger] s[l])
}

/// `p` lists each index below `n` exactly once.
pub open spec fn is_permutation(p: Seq<int>, n: int) -> bool {
    &&& p.len() == n
    &&& forall|k: int| 0 <= k < p.len() ==> 0 <= #[trigger] p[k] < n
    &&& forall|k: int, l: int| 0 <= k < l < p.len() ==> #[trigger] p[k] != #[trigger] p[l]
    &&& forall|j: int| 0 <= j < n ==> #[trigger] hits(p, j)
}

/// Some place of `p` holds `j`.
pub open spec fn hits(p: Seq<int>, j: int) -> bool {
    exists|k: int| 0 <= k < p.len() && p[k] == j
}

/// `r` is `s` sorted stably: a reordering of `s` (the element at place `k` of `r`
/// is the one at place `p[k]` of `s`) that is in order, and in which elements
/// of equal rank keep the order they had in `s`.
pub open spec fn is_stable_sort_of<T: SortKey>(r: Seq<T>, s: Seq<T>, p: Seq<int>) -> bool {
    &&& r.len() == s.len()
    &&& is_permutation(p, s.len() as int)
    &&& forall|k: int| 0 <= k < r.len() ==> #[trigger] r[k] == s[p[k]]
    &&& sorted_by_key(r)
    &&& forall|k: int, l: int|
        0 <= k < l < r.len() && r[l].key_le(&r[k]) ==> #[trigger] p[k] < #[trigger] p[l]
}

/// Inserts `x` after every element that may come before it, so that `res`
/// stays in order.
fn insert_in_order<T: SortKey>(res: &mut Vec<T>, x: T) -> (j: usize)
    requires
        sorted_by_key(old(res)@),
    ensures
        j <= old(res)@.len(),
        final(res)@ == old(res)@.insert(j as int, x),
        forall|k: int| 0 <= k < j ==> (#[trigger] old(res)@[k]).key_le(&x),
        forall|k: int| j <= k < old(res)@.len() ==> !(#[trigger] old(res)@[k]).key_le(&x),
        forall|k: int| j <= k < old(res)@.len() ==> x.key_le(&(#[trigger] old(res)@[k])),
{
    let mut j: usize = res.len();
    while j > 0 && !res[j - 1].le(&x)
        invariant
            res@ == old(res)@,
            j <= res@.len(),
            forall|k: int| j <= k < res@.len() ==> !(#[trigger] res@[k]).key_le(&x),
        decreases j,
    {
        j -= 1;
    }
    proof {
        assert forall|k: int| 0 <= k < j implies (#[trigger] res@[k]).key_le(&x) by {
            if k < j - 1 {
                assert(res@[k].key_le(&res@[j - 1]));
                T::lemma_transitive(&res@[k], &res@[j - 1], &x);
            }
        }
        assert forall|k: int| j <= k < res@.len() implies x.key_le(&(#[trigger] res@[k])) by {
            T::lemma_total(&x, &res@[k]);
        }
    }
    res.insert(j, x);
    j
}

proof fn lemma_insert_keeps_stable<T: SortKey>(
    s: Seq<T>,
    old_res: Seq<T>,
    old_p: Seq<int>,
    x: T,
    i: int,
    j: int,
)
    requires
        0 <= i < s.len(),
        x == s[i],
        old_res.len() == i,
        0 <= j <= i,
        is_permutation(old_p, i),
        forall|k: int| 0 <= k < old_res.len() ==> #[trigger] old_res[k] == s[old_p[k]],
        sorted_by_key(old_res),
        forall|k: int, l: int|
            0 <= k < l < old_res.len() && old_res[l].key_le(&old_res[k]) ==> #[trigger] old_p[k]
                < #[trigger] old_p[l],
        forall|k: int| 0 <= k < j ==> (#[trigger] old_res[k]).key_le(&x),
        forall|k: int| j <= k < old_res.len() ==> !(#[trigger] old_res[k]).key_le(&x),
        forall|k: int| j <= k < old_res.len() ==> x.key_le(&(#[trigger] old_res[k])),
    ensures
        ({
            let res = old_res.insert(j, x);
            let p = old_p.insert(j, i);
            &&& is_permutation(p, i + 1)
            &&& forall|k: int| 0 <= k < res.len() ==> #[trigger] res[k] == s[p[k]]
            &&& sorted_by_key(res)
            &&& forall|k: int, l: int|
                0 <= k < l < res.len() && res[l].key_le(&res[k]) ==> #[trigger] p[k]
                    < #[trigger] p[l]
        }),
{
    let res = old_res.insert(j, x);
    let p = old_p.insert(j, i);
    old_res.insert_ensures(j, x);
    old_p.insert_ensures(j, i);
    assert forall|k: int| 0 <= k < res.len() implies #[trigger] res[k] == s[p[k]] by {
        if k > j {
            assert(res[k] == old_res[k - 1]);
            assert(p[k] == old_p[k - 1]);
        }
    }
    assert forall|k: int| 0 <= k < p.len() implies 0 <= #[trigger] p[k] < i + 1 by {
        if k > j {
            assert(p[k] == old_p[k - 1]);
        } else if k < j {
            assert(p[k] == old_p[k]);
        }
    }
    assert forall|m: int| 0 <= m < i + 1 implies #[trigger] hits(p, m) by {
        if m == i {
            assert(p[j] == i);
        } else {
            assert(hits(old_p, m));
            let k0 = choose|k: int| 0 <= k < old_p.len() && old_p[k] == m;
            if k0 < j {
                assert(p[k0] == m);
            } else {
                assert(p[k0 + 1] == m);
            }
        }
    }
    assert forall|k: int, l: int| 0 <= k < l < p.len() implies #[trigger] p[k] != #[trigger] p[l] by {
        let ok = if k < j { k } else if k > j { k - 1 } else { -1 };
        let ol = if l < j { l } else if l > j { l - 1 } else { -1 };
        if k != j && l != j {
            assert(p[k] == old_p[ok]);
            assert(p[l] == old_p[ol]);
        } else if k == j {
            assert(p[l] == old_p[ol]);
        } else {
            assert(p[k] == old_p[ok]);
        }
    }
    assert forall|k: int, l: int| 0 <= k < l < res.len() implies #[trigger] res[k].key_le(
        &#[trigger] res[l],
    ) by {
        let ok = if k < j { k } else if k > j { k - 1 } else { -1 };
        let ol = if l < j { l } else if l > j { l - 1 } else { -1 };
        if k != j && l != j {
            assert(res[k] == old_res[ok]);
            assert(res[l] == old_res[ol]);
            assert(old_res[ok].key_le(&old_res[ol]));
        } else if k == j {
            assert(res[l] == old_res[ol]);
        } else {
            assert(res[k] == old_res[ok]);
        }
    }
    assert forall|k: int, l: int|
        0 <= k < l < res.len() && res[l].key_le(&res[k]) implies #[trigger] p[k] < #[trigger] p[l] by {
        let ok = if k < j { k } else if k > j { k - 1 } else { -1 };
        let ol = if l < j { l } else if l > j { l - 1 } else { -1 };
        if k != j && l != j {
            assert(res[k] == old_res[ok]);
            assert(res[l] == old_res[ol]);
            assert(p[k] == old_p[ok]);
            assert(p[l] == old_p[ol]);
        } else if k == j {
            assert(res[l] == old_res[ol]);
        } else {
            assert(p[k] == old_p[ok]);
        }
    }
}

/// The elements of `v`, stably sorted.
pub fn stable_sort<T: SortKey>(v: Vec<T>) -> (r: Vec<T>)
    ensures
        exists|p: Seq<int>| is_stable_sort_of(r@, v@, p),
{
    let ghost s = v@;
    let n = v.len();
    let mut rest = v;
    let mut res: Vec<T> = Vec::new();
    let ghost mut p: Seq<int> = Seq::empty();
    let mut i: usize = 0;
    while i < n
        invariant
            n == s.len(),
            i <= n,
            rest@ == s.skip(i as int),
            res@.len() == i,
            is_permutation(p, i as int),
            forall|k: int| 0 <= k < res@.len() ==> #[trigger] res@[k] == s[p[k]],
            sorted_by_key(res@),
            forall|k: int, l: int|
                0 <= k < l < res@.len() && res@[l].key_le(&res@[k]) ==> #[trigger] p[k] < #[trigger] p[l],
        decreases n - i,
    {
        let x = rest.remove(0);
        assert(x == s[i as int]);
        assert(rest@ =~= s.skip(i + 1));
        let ghost old_res = res@;
        let j = insert_in_order(&mut res, x);
        proof {
            lemma_insert_keeps_stable(s, old_res, p, x, i as int, j as int);
            p = p.insert(j as int, i as int);
        }
        i += 1;
    }
    assert(is_stable_sort_of(res@, s, p));
    res
}

} // verus!
