//! A stable insertion sort over items that carry a strict ordering key.
use crate::text::{lemma_seq_lt_irrefl, lemma_seq_lt_trans, seq_lt, seq_lt_exec, to_chars};
use vstd::prelude::*;

verus! {

broadcast use vstd::seq_lib::group_to_multiset_ensures;

/// Items that can be ordered by a strict "comes before" relation.
pub trait SortKey: View + Sized {
    /// `a` comes strictly before `b`.
    spec fn key_lt(a: Self::V, b: Self::V) -> bool;

    proof fn lemma_key_lt_trans(a: Self::V, b: Self::V, c: Self::V)
        requires
            Self::key_lt(a, b),
            Self::key_lt(b, c),
        ensures
            Self::key_lt(a, c),
    ;

    proof fn lemma_key_lt_irrefl(a: Self::V)
        ensures
            !Self::key_lt(a, a),
    ;

    fn exec_key_lt(&self, other: &Self) -> (r: bool)
        ensures
            r == Self::key_lt(self@, other@),
    ;
}

/// The views of the items.
pub open spec fn item_views<T: View>(s: Seq<T>) -> Seq<T::V> {
    s.map_values(|x: T| x@)
}

/// The index at which `x` is inserted into `s`: after every item that does
/// not come strictly after `x` (so equal keys keep their order).
pub open spec fn insert_pos<T: SortKey>(s: Seq<T::V>, x: T::V, i: int) -> int
    decreases s.len() - i,
{
    if 0 <= i < s.len() && !T::key_lt(x, s[i]) {
        insert_pos::<T>(s, x, i + 1)
    } else {
        i
    }
}

pub open spec fn sorted_insert<T: SortKey>(s: Seq<T::V>, x: T::V) -> Seq<T::V> {
    s.insert(insert_pos::<T>(s, x, 0), x)
}

/// The stable sort of `s`: each item in turn is inserted after all items
/// that do not come strictly after it.
pub open spec fn stable_sort<T: SortKey>(s: Seq<T::V>) -> Seq<T::V>
    decreases s.len(),
{
    if s.len() == 0 {
        s
    } else {
        sorted_insert::<T>(stable_sort::<T>(s.drop_last()), s.last())
    }
}

/// No item comes strictly before an earlier one.
pub open spec fn is_sorted<T: SortKey>(s: Seq<T::V>) -> bool {
    forall|i: int, j: int| 0 <= i < j < s.len() ==> !T::key_lt(#[trigger] s[j], #[trigger] s[i])
}

proof fn lemma_insert_pos<T: SortKey>(s: Seq<T::V>, x: T::V, i: int)
    requires
        0 <= i <= s.len(),
    ensures
        i <= insert_pos::<T>(s, x, i) <= s.len(),
        forall|k: int| i <= k < insert_pos::<T>(s, x, i) ==> !T::key_lt(x, #[trigger] s[k]),
        insert_pos::<T>(s, x, i) < s.len() ==> T::key_lt(x, s[insert_pos::<T>(s, x, i)]),
    decreases s.len() - i,
{
    if i < s.len() && !T::key_lt(x, s[i]) {
        lemma_insert_pos::<T>(s, x, i + 1);
    }
}

proof fn lemma_sorted_insert<T: SortKey>(s: Seq<T::V>, x: T::V)
    requires
        is_sorted::<T>(s),
    ensures
        is_sorted::<T>(sorted_insert::<T>(s, x)),
{
    lemma_insert_pos::<T>(s, x, 0);
    let p = insert_pos::<T>(s, x, 0);
    let r = sorted_insert::<T>(s, x);
    s.insert_ensures(p, x);
    assert forall|i: int, j: int| 0 <= i < j < r.len() implies !T::key_lt(
        #[trigger] r[j],
        #[trigger] r[i],
    ) by {
        if i < p && j == p {
            assert(!T::key_lt(x, s[i]));
        } else if i == p && j > p {
            // x comes strictly before s[p], which does not come after s[j - 1]
            assert(T::key_lt(x, s[p]));
            if T::key_lt(r[j], x) {
                T::lemma_key_lt_trans(s[j - 1], x, s[p]);
                if j - 1 > p {
                    assert(!T::key_lt(s[j - 1], s[p]));
                } else {
                    T::lemma_key_lt_irrefl(s[p]);
                }
            }
        } else if i < p && j > p {
            assert(!T::key_lt(s[j - 1], s[i]));
        } else if j < p {
            assert(!T::key_lt(s[j], s[i]));
        } else {
            assert(!T::key_lt(s[j - 1], s[i - 1]));
        }
    }
}

/// The stable sort is sorted and holds the same items.
pub proof fn lemma_stable_sort<T: SortKey>(s: Seq<T::V>)
    ensures
        is_sorted::<T>(stable_sort::<T>(s)),
        stable_sort::<T>(s).to_multiset() == s.to_multiset(),
        stable_sort::<T>(s).len() == s.len(),
    decreases s.len(),
{
    if s.len() > 0 {
        lemma_stable_sort::<T>(s.drop_last());
        let t = stable_sort::<T>(s.drop_last());
        lemma_sorted_insert::<T>(t, s.last());
        lemma_insert_pos::<T>(t, s.last(), 0);
        vstd::seq_lib::to_multiset_insert(t, insert_pos::<T>(t, s.last(), 0), s.last());
        assert(s =~= s.drop_last().push(s.last()));
        vstd::seq_lib::to_multiset_build(s.drop_last(), s.last());
    }
}

/// Sorts the items stably by their key.
pub fn sort_stable<T: SortKey>(v: Vec<T>) -> (r: Vec<T>)
    ensures
        item_views(r@) == stable_sort::<T>(item_views(v@)),
{
    let ghost orig = item_views(v@);
    let mut v = v;
    let mut out: Vec<T> = Vec::new();
    let ghost mut n: int = 0;
    assert(orig.take(0) =~= Seq::<T::V>::empty());
    assert(item_views(out@) =~= Seq::<T::V>::empty());
    while v.len() > 0
        invariant
            0 <= n <= orig.len(),
            item_views(v@) == orig.skip(n),
            item_views(out@) == stable_sort::<T>(orig.take(n)),
        decreases v.len(),
    {
        let ghost old_v = v@;
        assert(item_views(old_v).len() == old_v.len());
        assert(n < orig.len());
        let x = v.remove(0);
        assert(x@ == orig[n]) by {
            assert(item_views(old_v)[0] == old_v[0]@);
            assert(item_views(old_v)[0] == orig.skip(n)[0]);
        }
        let mut p: usize = 0;
        proof {
            lemma_stable_sort::<T>(orig.take(n));
        }
        while p < out.len() && !x.exec_key_lt(&out[p])
            invariant
                p <= out@.len(),
                insert_pos::<T>(item_views(out@), x@, 0) == insert_pos::<T>(item_views(out@), x@, p as int),
            decreases out.len() - p,
        {
            p = p + 1;
        }
        let ghost old_out = item_views(out@);
        out.insert(p, x);
        proof {
            assert(item_views(out@) =~= old_out.insert(p as int, x@));
            assert(orig.take(n + 1).drop_last() =~= orig.take(n));
            assert(orig.take(n + 1).last() == x@);
            assert(v@ =~= old_v.remove(0));
            assert forall|k: int| 0 <= k < v@.len() implies #[trigger] item_views(v@)[k] == orig.skip(n + 1)[k] by {
                assert(v@[k] == old_v[k + 1]);
                assert(item_views(old_v)[k + 1] == orig.skip(n)[k + 1]);
            }
            n = n + 1;
            assert(item_views(v@) =~= orig.skip(n));
        }
    }
    assert(orig.take(n) =~= orig);
    out
}

impl SortKey for String {
    /// `String`'s order: by code point, character by character.
    open spec fn key_lt(a: Seq<char>, b: Seq<char>) -> bool {
        seq_lt(a, b)
    }

    proof fn lemma_key_lt_trans(a: Seq<char>, b: Seq<char>, c: Seq<char>) {
        lemma_seq_lt_trans(a, b, c);
    }

    proof fn lemma_key_lt_irrefl(a: Seq<char>) {
        lemma_seq_lt_irrefl(a);
    }

    fn exec_key_lt(&self, other: &Self) -> (r: bool) {
        let a = to_chars(self.as_str());
        let b = to_chars(other.as_str());
        seq_lt_exec(a.as_slice(), b.as_slice())
    }
}

} // verus!
