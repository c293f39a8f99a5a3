//! Tables of records under text keys: each key at most once, in the order
//! keys first arrived, a later record for a key replacing the earlier one
//! in its place.

use vstd::prelude::*;

verus! {

/// A record stored in a table under a text key.
pub trait Keyed: View + Sized {
    /// The key of a record's view.
    spec fn key_of(v: Self::V) -> Seq<char>;

    /// The record's key.
    fn key(&self) -> (r: &String)
        ensures
            r@ == Self::key_of(self@);
}

/// The views of a table's records.
pub open spec fn table_views<T: View>(v: Seq<T>) -> Seq<T::V> {
    v.map_values(|t: T| t@)
}

/// The first position at or after `i` whose record has key `k`.
pub open spec fn key_pos<T: Keyed>(s: Seq<T::V>, k: Seq<char>, i: int) -> Option<int>
    decreases s.len() - i,
{
    if i < 0 || i >= s.len() {
        None
    } else if T::key_of(s[i]) == k {
        Some(i)
    } else {
        key_pos::<T>(s, k, i + 1)
    }
}

/// `s` with `x` in place of the record with its key, or at the end.
pub open spec fn put_keyed<T: Keyed>(s: Seq<T::V>, x: T::V) -> Seq<T::V> {
    match key_pos::<T>(s, T::key_of(x), 0) {
        Some(i) => s.update(i, x),
        None => s.push(x),
    }
}

/// Puts `x` into the table under its key.
pub fn put_entry<T: Keyed>(table: &mut Vec<T>, x: T)
    ensures
        table_views(final(table)@) == put_keyed::<T>(table_views(old(table)@), x@),
{
    let ghost tv = table_views(table@);
    let mut i: usize = 0;
    while i < table.len()
        invariant
            table@ == old(table)@,
            tv == table_views(table@),
            i <= table@.len(),
            key_pos::<T>(tv, T::key_of(x@), 0) == key_pos::<T>(tv, T::key_of(x@), i as int),
        decreases table@.len() - i,
    {
        assert(tv[i as int] == table@[i as int]@);
        let same = table[i].key().eq(x.key());
        if same {
            let ghost new = x@;
            table.set(i, x);
            assert(table_views(table@) =~= tv.update(i as int, new));
            return;
        }
        i = i + 1;
    }
    let ghost new = x@;
    table.push(x);
    assert(table_views(table@) =~= tv.push(new));
}

impl Keyed for (String, String) {
    open spec fn key_of(v: (Seq<char>, Seq<char>)) -> Seq<char> {
        v.0
    }

    fn key(&self) -> (r: &String) {
        &self.0
    }
}

} // verus!
