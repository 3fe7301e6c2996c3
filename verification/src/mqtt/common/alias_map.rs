//! Ordered alias-to-topic tables: the `indexmap` map of the sending side, and the
//! facts about ordered key/value sequences its users rely on.
use indexmap::IndexMap;
use vstd::prelude::*;

verus! {

/// `indexmap::IndexMap`, an insertion-ordered hash map.
#[verifier::external_type_specification]
#[verifier::external_body]
#[verifier::reject_recursive_types(K)]
#[verifier::reject_recursive_types(V)]
#[verifier::reject_recursive_types(S)]
pub struct ExIndexMap<K, V, S>(IndexMap<K, V, S>);

/// The entries of an alias table, in the map's order, with topics as characters.
pub uninterp spec fn alias_entries(m: IndexMap<u16, String>) -> Seq<(u16, Seq<char>)>;

/// Keys occur at most once.
pub open spec fn unique_keys<V>(s: Seq<(u16, V)>) -> bool {
    forall|i: int, j: int| 0 <= i < j < s.len() ==> #[trigger] s[i].0 != #[trigger] s[j].0
}

/// The mapping the entries describe (later entries win).
pub open spec fn as_map<V>(s: Seq<(u16, V)>) -> Map<u16, V>
    decreases s.len(),
{
    if s.len() == 0 {
        Map::empty()
    } else {
        as_map(s.drop_last()).insert(s.last().0, s.last().1)
    }
}

/// The entries without those whose key is `k`, order kept.
pub open spec fn without_key<V>(s: Seq<(u16, V)>, k: u16) -> Seq<(u16, V)>
    decreases s.len(),
{
    if s.len() == 0 {
        s
    } else if s.last().0 == k {
        without_key(s.drop_last(), k)
    } else {
        without_key(s.drop_last(), k).push(s.last())
    }
}

/// The key of the first entry whose value is `t`.
pub open spec fn first_key_of<V>(s: Seq<(u16, V)>, t: V) -> Option<u16>
    decreases s.len(),
{
    if s.len() == 0 {
        None
    } else if s[0].1 == t {
        Some(s[0].0)
    } else {
        first_key_of(s.drop_first(), t)
    }
}

/// A key is in the mapping exactly when some entry has it, and then the mapping
/// gives that entry's value.
pub proof fn lemma_as_map_index<V>(s: Seq<(u16, V)>, k: u16)
    requires
        unique_keys(s),
    ensures
        as_map(s).dom().contains(k) <==> exists|i: int| 0 <= i < s.len() && #[trigger] s[i].0 == k,
        forall|i: int| 0 <= i < s.len() && #[trigger] s[i].0 == k ==> as_map(s)[k] == s[i].1,
    decreases s.len(),
{
    if s.len() > 0 {
        let p = s.drop_last();
        assert(unique_keys(p)) by {
            assert forall|i: int, j: int| 0 <= i < j < p.len() implies #[trigger] p[i].0
                != #[trigger] p[j].0 by {
                assert(s[i].0 != s[j].0);
            }
        }
        lemma_as_map_index(p, k);
        if as_map(s).dom().contains(k) && s.last().0 != k {
            let i = choose|i: int| 0 <= i < p.len() && #[trigger] p[i].0 == k;
            assert(s[i].0 == k);
        }
        assert forall|i: int| 0 <= i < s.len() && #[trigger] s[i].0 == k implies as_map(s)[k]
            == s[i].1 by {
            if i < s.len() - 1 {
                assert(p[i].0 == k);
                assert(s[i].0 != s[s.len() - 1].0);
            }
        }
        if exists|i: int| 0 <= i < s.len() && #[trigger] s[i].0 == k {
            let i = choose|i: int| 0 <= i < s.len() && #[trigger] s[i].0 == k;
            if i < s.len() - 1 {
                assert(p[i].0 == k);
            }
        }
    }
}

/// Removing the only entry with key `k` is removing it from the mapping.
pub proof fn lemma_without_key<V>(s: Seq<(u16, V)>, k: u16)
    requires
        unique_keys(s),
    ensures
        unique_keys(without_key(s, k)),
        as_map(without_key(s, k)) == as_map(s).remove(k),
        !as_map(s).dom().contains(k) ==> without_key(s, k) == s,
        forall|i: int| 0 <= i < s.len() && #[trigger] s[i].0 == k ==> without_key(s, k) == s.remove(i),
        forall|i: int| 0 <= i < without_key(s, k).len() ==> #[trigger] without_key(s, k)[i].0 != k,
    decreases s.len(),
{
    if s.len() == 0 {
        assert(as_map(s).remove(k) =~= as_map(s));
    } else {
        let p = s.drop_last();
        assert(unique_keys(p)) by {
            assert forall|i: int, j: int| 0 <= i < j < p.len() implies #[trigger] p[i].0
                != #[trigger] p[j].0 by {
                assert(s[i].0 != s[j].0);
            }
        }
        lemma_without_key(p, k);
        lemma_as_map_index(p, s.last().0);
        let w = without_key(s, k);
        let wp = without_key(p, k);
        if s.last().0 == k {
            assert(!as_map(p).dom().contains(k)) by {
                if as_map(p).dom().contains(k) {
                    let i = choose|i: int| 0 <= i < p.len() && #[trigger] p[i].0 == k;
                    assert(s[i].0 != s[s.len() - 1].0);
                }
            }
            assert(as_map(s).remove(k) =~= as_map(p).remove(k));
            assert(w == wp);
            assert(as_map(w) == as_map(s).remove(k));
            assert(s.remove(s.len() - 1) =~= p);
            assert forall|i: int| 0 <= i < s.len() && #[trigger] s[i].0 == k implies w == s.remove(i) by {
                if i < s.len() - 1 {
                    assert(s[i].0 != s[s.len() - 1].0);
                }
            }
        } else {
            assert(w == wp.push(s.last()));
            assert(w.drop_last() =~= wp);
            assert(as_map(w) == as_map(wp).insert(s.last().0, s.last().1));
            assert(as_map(s).remove(k) =~= as_map(wp).insert(s.last().0, s.last().1));
            assert(!as_map(wp).dom().contains(s.last().0)) by {
                if as_map(p).dom().contains(s.last().0) {
                    let i = choose|i: int| 0 <= i < p.len() && #[trigger] p[i].0 == s.last().0;
                    assert(s[i].0 != s[s.len() - 1].0);
                }
            }
            lemma_as_map_index(wp, s.last().0);
            assert(unique_keys(w)) by {
                assert forall|i: int, j: int| 0 <= i < j < w.len() implies #[trigger] w[i].0
                    != #[trigger] w[j].0 by {
                    if j == w.len() - 1 {
                        assert(wp[i].0 == w[i].0);
                    } else {
                        assert(wp[i].0 != wp[j].0);
                    }
                }
            }
            if !as_map(s).dom().contains(k) {
                assert(w =~= s);
            }
            assert forall|i: int| 0 <= i < s.len() && #[trigger] s[i].0 == k implies w == s.remove(i) by {
                assert(p[i].0 == k);
                assert(wp == p.remove(i));
                assert(w =~= s.remove(i));
            }
        }
    }
}

/// Appending an entry with a new key adds it to the mapping and keeps keys unique.
pub proof fn lemma_push_new_key<V>(s: Seq<(u16, V)>, k: u16, v: V)
    requires
        unique_keys(s),
        !as_map(s).dom().contains(k),
    ensures
        unique_keys(s.push((k, v))),
        as_map(s.push((k, v))) == as_map(s).insert(k, v),
{
    lemma_as_map_index(s, k);
    let t = s.push((k, v));
    assert(t.drop_last() =~= s);
    assert forall|i: int, j: int| 0 <= i < j < t.len() implies #[trigger] t[i].0 != #[trigger] t[j].0 by {
        if j == t.len() - 1 {
            assert(s[i].0 != k);
        } else {
            assert(s[i].0 != s[j].0);
        }
    }
}

/// `first_key_of` finds the first entry with value `t`, if there is one.
pub proof fn lemma_first_key_of<V>(s: Seq<(u16, V)>, t: V)
    ensures
        match first_key_of(s, t) {
            Some(a) => exists|i: int| 0 <= i < s.len() && #[trigger] s[i] == (a, t),
            None => forall|i: int| 0 <= i < s.len() ==> #[trigger] s[i].1 != t,
        },
    decreases s.len(),
{
    if s.len() > 0 {
        let r = s.drop_first();
        lemma_first_key_of(r, t);
        if s[0].1 != t {
            match first_key_of(r, t) {
                Some(a) => {
                    let i = choose|i: int| 0 <= i < r.len() && #[trigger] r[i] == (a, t);
                    assert(s[i + 1] == (a, t));
                },
                None => {
                    assert forall|i: int| 0 <= i < s.len() implies #[trigger] s[i].1 != t by {
                        if i > 0 {
                            assert(s[i] == r[i - 1]);
                        }
                    }
                },
            }
        } else {
            assert(s[0] == (s[0].0, t));
        }
    }
}

/// A new, empty map.
///
/// Calls `IndexMap::new`; the contract claims the map has no entries.
#[verifier::external_body]
pub(crate) fn index_map_new() -> (r: IndexMap<u16, String>)
    ensures
        alias_entries(r) == Seq::<(u16, Seq<char>)>::empty(),
{
    IndexMap::new()
}

/// Inserts `k` with value `v`.
///
/// Calls `IndexMap::insert`; the contract claims what its documentation says: an
/// existing key keeps its place and gets the new value, a new key goes last.
#[verifier::external_body]
pub(crate) fn index_map_insert(m: &mut IndexMap<u16, String>, k: u16, v: String) -> (r: Option<
    String,
>)
    ensures
        match r {
            Some(old_v) => exists|i: int|
                0 <= i < alias_entries(*old(m)).len() && #[trigger] alias_entries(*old(m))[i].0 == k
                    && old_v@ == alias_entries(*old(m))[i].1 && alias_entries(*final(m))
                    == alias_entries(*old(m)).update(i, (k, v@)),
            None => (forall|i: int|
                0 <= i < alias_entries(*old(m)).len() ==> #[trigger] alias_entries(*old(m))[i].0
                    != k) && alias_entries(*final(m)) == alias_entries(*old(m)).push((k, v@)),
        },
{
    m.insert(k, v)
}

/// Removes the entry with key `k`, shifting the later ones down.
///
/// Calls `IndexMap::shift_remove`; the contract claims what its documentation
/// says: the order of the other entries is kept, and the removed value is returned.
#[verifier::external_body]
pub(crate) fn index_map_shift_remove(m: &mut IndexMap<u16, String>, k: u16) -> (r: Option<String>)
    ensures
        match r {
            Some(old_v) => exists|i: int|
                0 <= i < alias_entries(*old(m)).len() && #[trigger] alias_entries(*old(m))[i].0 == k
                    && old_v@ == alias_entries(*old(m))[i].1 && alias_entries(*final(m))
                    == alias_entries(*old(m)).remove(i),
            None => (forall|i: int|
                0 <= i < alias_entries(*old(m)).len() ==> #[trigger] alias_entries(*old(m))[i].0
                    != k) && alias_entries(*final(m)) == alias_entries(*old(m)),
        },
{
    m.shift_remove(&k)
}

/// The value of key `k`.
///
/// Calls `IndexMap::get`; the contract claims it returns the value of the entry
/// with that key, or `None` when there is none.
#[verifier::external_body]
pub(crate) fn index_map_get(m: &IndexMap<u16, String>, k: u16) -> (r: Option<&String>)
    ensures
        match r {
            Some(v) => exists|i: int|
                0 <= i < alias_entries(*m).len() && #[trigger] alias_entries(*m)[i].0 == k && v@
                    == alias_entries(*m)[i].1,
            None => forall|i: int|
                0 <= i < alias_entries(*m).len() ==> #[trigger] alias_entries(*m)[i].0 != k,
        },
{
    m.get(&k)
}

/// The key of the first entry.
///
/// Calls `IndexMap::first`; the contract claims it gives the first entry in the
/// map's order.
#[verifier::external_body]
pub(crate) fn index_map_first_key(m: &IndexMap<u16, String>) -> (r: Option<u16>)
    ensures
        alias_entries(*m).len() == 0 ==> r is None,
        alias_entries(*m).len() > 0 ==> r == Some(alias_entries(*m)[0].0),
{
    m.first().map(|(k, _)| *k)
}

/// Removes every entry.
///
/// Calls `IndexMap::clear`; the contract claims the map is then empty.
#[verifier::external_body]
pub(crate) fn index_map_clear(m: &mut IndexMap<u16, String>)
    ensures
        alias_entries(*final(m)) == Seq::<(u16, Seq<char>)>::empty(),
{
    m.clear()
}

} // verus!
