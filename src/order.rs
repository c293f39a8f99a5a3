//! Stable sorting of records by a rank, then by a label.

use crate::table::table_views;
use crate::text::{chars_of, lemma_lex_lt_irreflexive, lemma_lex_lt_transitive, lex_less, lex_lt};
use vstd::prelude::*;

verus! {

/// A record ordered by a small rank, then by a label.
pub trait Ranked: View + Sized {
    /// The rank of a record's view.
    spec fn rank_of(v: Self::V) -> int;

    /// The label of a record's view.
    spec fn label_of(v: Self::V) -> Seq<char>;

    /// The record's rank.
    fn rank(&self) -> (r: u8)
        ensures
            r as int == Self::rank_of(self@);

    /// The record's label.
    fn label(&self) -> (r: &String)
        ensures
            r@ == Self::label_of(self@);
}

/// `a` sorts strictly before `b`: by rank, then by label.
pub open spec fn ranked_before<T: Ranked>(a: T::V, b: T::V) -> bool {
    T::rank_of(a) < T::rank_of(b) || (T::rank_of(a) == T::rank_of(b) && lex_lt(
        T::label_of(a),
        T::label_of(b),
    ))
}

/// Where `x` goes into the sorted `s`: before the first record at or after
/// `i` that it sorts strictly before, so that equal records keep their
/// order.
pub open spec fn ranked_pos<T: Ranked>(s: Seq<T::V>, x: T::V, i: int) -> int
    decreases s.len() - i,
{
    if i < 0 || i >= s.len() {
        s.len() as int
    } else if ranked_before::<T>(x, s[i]) {
        i
    } else {
        ranked_pos::<T>(s, x, i + 1)
    }
}

/// The records in sorted order, equal ones in the order given.
pub open spec fn sort_ranked<T: Ranked>(s: Seq<T::V>) -> Seq<T::V>
    decreases s.len(),
{
    if s.len() == 0 {
        s
    } else {
        let t = sort_ranked::<T>(s.drop_last());
        t.insert(ranked_pos::<T>(t, s.last(), 0), s.last())
    }
}

/// No record of `s` sorts strictly before one that precedes it.
pub open spec fn in_order<T: Ranked>(s: Seq<T::V>) -> bool {
    forall|i: int, j: int|
        0 <= i < j < s.len() ==> !ranked_before::<T>(#[trigger] s[j], #[trigger] s[i])
}

proof fn lemma_ranked_pos<T: Ranked>(s: Seq<T::V>, x: T::V, i: int)
    requires
        0 <= i <= s.len(),
    ensures
        i <= ranked_pos::<T>(s, x, i) <= s.len(),
        forall|j: int| i <= j < ranked_pos::<T>(s, x, i) ==> !ranked_before::<T>(x, #[trigger] s[j]),
        ranked_pos::<T>(s, x, i) < s.len() ==> ranked_before::<T>(x, s[ranked_pos::<T>(s, x, i)]),
    decreases s.len() - i,
{
    if i < s.len() && !ranked_before::<T>(x, s[i]) {
        lemma_ranked_pos::<T>(s, x, i + 1);
    }
}

proof fn lemma_ranked_before_transitive<T: Ranked>(a: T::V, b: T::V, c: T::V)
    requires
        ranked_before::<T>(a, b),
        ranked_before::<T>(b, c),
    ensures
        ranked_before::<T>(a, c),
{
    if T::rank_of(a) == T::rank_of(b) && T::rank_of(b) == T::rank_of(c) {
        lemma_lex_lt_transitive(T::label_of(a), T::label_of(b), T::label_of(c));
    }
}

proof fn lemma_insert_keeps_order<T: Ranked>(s: Seq<T::V>, x: T::V)
    requires
        in_order::<T>(s),
    ensures
        in_order::<T>(s.insert(ranked_pos::<T>(s, x, 0), x)),
{
    lemma_ranked_pos::<T>(s, x, 0);
    let p = ranked_pos::<T>(s, x, 0);
    let t = s.insert(p, x);
    assert forall|a: int, b: int| 0 <= a < b < t.len() implies !ranked_before::<T>(
        #[trigger] t[b],
        #[trigger] t[a],
    ) by {
        if a < p && b < p {
            assert(t[a] == s[a] && t[b] == s[b]);
        } else if a < p && b == p {
            assert(t[a] == s[a]);
        } else if a < p {
            assert(t[a] == s[a] && t[b] == s[b - 1]);
        } else if a == p {
            assert(t[b] == s[b - 1]);
            if ranked_before::<T>(s[b - 1], x) {
                lemma_ranked_before_transitive::<T>(s[b - 1], x, s[p]);
                if b - 1 == p {
                    lemma_lex_lt_irreflexive(T::label_of(s[p]));
                }
            }
        } else {
            assert(t[a] == s[a - 1] && t[b] == s[b - 1]);
        }
    }
}

/// Sorting puts the records in order and keeps each as often as given.
pub proof fn lemma_sort_ranked<T: Ranked>(s: Seq<T::V>)
    ensures
        in_order::<T>(sort_ranked::<T>(s)),
        sort_ranked::<T>(s).to_multiset() == s.to_multiset(),
    decreases s.len(),
{
    broadcast use vstd::seq_lib::group_to_multiset_ensures;

    if s.len() > 0 {
        let prev = s.drop_last();
        lemma_sort_ranked::<T>(prev);
        let t = sort_ranked::<T>(prev);
        lemma_ranked_pos::<T>(t, s.last(), 0);
        lemma_insert_keeps_order::<T>(t, s.last());
        vstd::seq_lib::to_multiset_insert(t, ranked_pos::<T>(t, s.last(), 0), s.last());
        assert(s =~= prev.push(s.last()));
    }
}

/// Inserts `x` into the sorted `sorted` after every record it does not
/// sort strictly before.
pub fn insert_ranked<T: Ranked>(sorted: &mut Vec<T>, x: T)
    ensures
        table_views(final(sorted)@) == table_views(old(sorted)@).insert(
            ranked_pos::<T>(table_views(old(sorted)@), x@, 0),
            x@,
        ),
{
    let ghost sv = table_views(sorted@);
    let xr = x.rank();
    let xl = chars_of(x.label().as_str());
    let mut i: usize = 0;
    loop
        invariant
            sorted@ == old(sorted)@,
            sv == table_views(sorted@),
            i <= sorted@.len(),
            xr as int == T::rank_of(x@),
            xl@ == T::label_of(x@),
            ranked_pos::<T>(sv, x@, 0) == ranked_pos::<T>(sv, x@, i as int),
        ensures
            ranked_pos::<T>(sv, x@, 0) == i as int,
        decreases sorted@.len() - i,
    {
        if i == sorted.len() {
            break;
        }
        assert(sv[i as int] == sorted@[i as int]@);
        let r = sorted[i].rank();
        let before = if xr != r {
            xr < r
        } else {
            let l = chars_of(sorted[i].label().as_str());
            lex_less(&xl, &l)
        };
        if before {
            break;
        }
        i = i + 1;
    }
    let ghost xv = x@;
    sorted.insert(i, x);
    assert(table_views(sorted@) =~= sv.insert(i as int, xv));
}

} // verus!
