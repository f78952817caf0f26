//! Tables keyed by name: setting a name that is present replaces its value in
//! place, and setting a new name appends an entry.
use vstd::prelude::*;

verus! {

/// The position of the entry named `k`; the last one where several are.
pub open spec fn entry_index<V>(t: Seq<(Seq<char>, V)>, k: Seq<char>) -> Option<int>
    decreases t.len(),
{
    if t.len() == 0 {
        None
    } else if t.last().0 == k {
        Some(t.len() - 1)
    } else {
        entry_index(t.drop_last(), k)
    }
}

/// `t` with the entry named `k` set to `v`.
pub open spec fn table_set<V>(t: Seq<(Seq<char>, V)>, k: Seq<char>, v: V) -> Seq<(Seq<char>, V)> {
    match entry_index(t, k) {
        Some(i) => t.update(i, (k, v)),
        None => t.push((k, v)),
    }
}

/// The meaning of a table whose values mean what `f` says of them.
pub open spec fn table_view<V, W>(t: Seq<(String, V)>, f: spec_fn(V) -> W) -> Seq<(Seq<char>, W)> {
    Seq::new(t.len(), |i: int| (t[i].0@, f(t[i].1)))
}

/// The position of the entry whose name is `k`; the last one where several are.
pub open spec fn key_index<V>(t: Seq<(String, V)>, k: Seq<char>) -> Option<int>
    decreases t.len(),
{
    if t.len() == 0 {
        None
    } else if t.last().0@ == k {
        Some(t.len() - 1)
    } else {
        key_index(t.drop_last(), k)
    }
}

/// `t` with the entry named `k` set to `v`, on the values themselves.
pub open spec fn entries_set<V>(t: Seq<(String, V)>, k: String, v: V) -> Seq<(String, V)> {
    match key_index(t, k@) {
        Some(i) => t.update(i, (k, v)),
        None => t.push((k, v)),
    }
}

proof fn lemma_key_index<V, W>(t: Seq<(String, V)>, k: Seq<char>, f: spec_fn(V) -> W)
    ensures
        key_index(t, k) == entry_index(table_view(t, f), k),
        key_index(t, k) matches Some(i) ==> 0 <= i < t.len(),
    decreases t.len(),
{
    if t.len() > 0 {
        assert(table_view(t, f).drop_last() =~= table_view(t.drop_last(), f));
        lemma_key_index(t.drop_last(), k, f);
    }
}

/// Setting an entry and then taking the meaning is taking the meaning and then
/// setting the entry's meaning.
pub proof fn lemma_table_set<V, W>(t: Seq<(String, V)>, k: String, v: V, f: spec_fn(V) -> W)
    ensures
        table_view(entries_set(t, k, v), f) == table_set(table_view(t, f), k@, f(v)),
{
    lemma_key_index(t, k@, f);
    match key_index(t, k@) {
        Some(i) => {
            assert(table_view(entries_set(t, k, v), f) =~= table_view(t, f).update(i, (k@, f(v))));
        },
        None => {
            assert(table_view(entries_set(t, k, v), f) =~= table_view(t, f).push((k@, f(v))));
        },
    }
}

/// Sets the entry named `k` to `v`.
pub fn set_entry<V>(t: &mut Vec<(String, V)>, k: String, v: V)
    ensures
        final(t)@ == entries_set(old(t)@, k, v),
{
    let ghost all = t@;
    proof {
        lemma_key_index(all, k@, |x: V| x);
    }
    let mut j = t.len();
    assert(all.subrange(0, j as int) =~= all);
    while j > 0
        invariant
            t@ == all,
            all == old(t)@,
            j <= all.len(),
            key_index(all, k@) == key_index(all.subrange(0, j as int), k@),
            key_index(all, k@) matches Some(i) ==> 0 <= i < all.len(),
        decreases j,
    {
        assert(all.subrange(0, j as int).drop_last() =~= all.subrange(0, j - 1));
        assert(all.subrange(0, j as int).last() == all[j - 1]);
        if t[j - 1].0.eq(&k) {
            assert(key_index(all, k@) == Some((j - 1) as int));
            t.set(j - 1, (k, v));
            return;
        }
        j -= 1;
    }
    t.push((k, v));
}

} // verus!
