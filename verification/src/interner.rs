//! What this library assumes of the two outside collections it stores names in:
//! the string interner and the insertion-ordered index.

use vstd::prelude::*;
use indexmap::IndexMap;
use std::collections::hash_map::RandomState;
use string_interner::StringInterner;

verus! {

/// A `string_interner::StringInterner` whose symbols are plain positions,
/// of which nothing is known but what the functions below say.
#[verifier::external_body]
pub struct Interner {
    inner: StringInterner<usize>,
}

/// `indexmap::IndexMap`, of which nothing is known but what the functions
/// below say.
#[verifier::external_type_specification]
#[verifier::external_body]
#[verifier::reject_recursive_types(K)]
#[verifier::reject_recursive_types(V)]
#[verifier::reject_recursive_types(S)]
pub struct ExIndexMap<K, V, S>(IndexMap<K, V, S>);

/// The strings an interner holds, in the order in which they were first
/// interned: the string at position `i` has the symbol `i`.
pub uninterp spec fn interned(s: Interner) -> Seq<Seq<char>>;

/// The key-value pairs an index holds, in insertion order.
pub uninterp spec fn index_entries(m: IndexMap<usize, usize, RandomState>) -> Seq<(usize, usize)>;

/// `StringInterner::new`: an interner that holds no string.
#[verifier::external_body]
pub(crate) fn interner_new() -> (r: Interner)
    ensures
        interned(r) == Seq::<Seq<char>>::empty(),
{
    Interner { inner: StringInterner::new() }
}

/// `StringInterner::get_or_intern`: the symbol of a string that the interner
/// holds, with the interner unchanged; for a string it does not hold, the
/// string is added last and its position is the symbol. The strings are
/// kept in a vector, so their number fits a `usize`.
#[verifier::external_body]
pub(crate) fn interner_get_or_intern(s: &mut Interner, val: &str) -> (r:
    usize)
    ensures
        old(s).contains_name(val@) ==> interned(*final(s)) == interned(*old(s)) && r < interned(
            *old(s),
        ).len() && interned(*old(s))[r as int] == val@,
        !old(s).contains_name(val@) ==> interned(*final(s)) == interned(*old(s)).push(val@) && r
            == interned(*old(s)).len(),
        interned(*final(s)).len() <= usize::MAX,
{
    s.inner.get_or_intern(val)
}

/// `StringInterner::get`: the symbol of a string, if the interner holds it.
#[verifier::external_body]
pub(crate) fn interner_get(s: &Interner, val: &str) -> (r: Option<usize>)
    ensures
        r is Some <==> s.contains_name(val@),
        r matches Some(i) ==> i < interned(*s).len() && interned(*s)[i as int] == val@,
{
    s.inner.get(val)
}

/// `StringInterner::resolve`: the string with the given symbol, if there is one.
#[verifier::external_body]
pub(crate) fn interner_resolve(s: &Interner, symbol: usize) -> (r: Option<
    &str,
>)
    ensures
        r is Some <==> symbol < interned(*s).len(),
        r matches Some(v) ==> v@ == interned(*s)[symbol as int],
{
    s.inner.resolve(symbol)
}

/// `StringInterner::len`: the number of strings held.
#[verifier::external_body]
pub(crate) fn interner_len(s: &Interner) -> (r: usize)
    ensures
        r == interned(*s).len(),
{
    s.inner.len()
}

/// Whether some pair of `entries` has the key `k`.
pub open spec fn has_key(entries: Seq<(usize, usize)>, k: usize) -> bool {
    exists|i: int| 0 <= i < entries.len() && (#[trigger] entries[i]).0 == k
}

/// `IndexMap::new`: an index that holds no pair.
#[verifier::external_body]
pub(crate) fn index_new() -> (r: IndexMap<usize, usize, RandomState>)
    ensures
        index_entries(r) == Seq::<(usize, usize)>::empty(),
{
    IndexMap::new()
}

/// `IndexMap::insert`: where the key is present its pair keeps its place and
/// takes the new value, and the value it had is returned; otherwise the pair
/// is added last and nothing is returned.
#[verifier::external_body]
pub(crate) fn index_insert(m: &mut IndexMap<usize, usize, RandomState>, key: usize, value: usize) -> (r:
    Option<usize>)
    ensures
        r is Some <==> has_key(index_entries(*old(m)), key),
        r is None ==> index_entries(*final(m)) == index_entries(*old(m)).push((key, value)),
        forall|i: int|
            0 <= i < index_entries(*old(m)).len() && (#[trigger] index_entries(*old(m))[i]).0 == key
                ==> index_entries(*final(m)) == index_entries(*old(m)).update(i, (key, value))
                && r == Some(index_entries(*old(m))[i].1),
{
    m.insert(key, value)
}

/// `IndexMap::get`: the value stored for a key, if the key is present.
#[verifier::external_body]
pub(crate) fn index_get(m: &IndexMap<usize, usize, RandomState>, key: usize) -> (r: Option<usize>)
    ensures
        r is Some <==> has_key(index_entries(*m), key),
        forall|i: int|
            0 <= i < index_entries(*m).len() && (#[trigger] index_entries(*m)[i]).0 == key ==> r
                == Some(index_entries(*m)[i].1),
{
    m.get(&key).copied()
}

/// `IndexMap::get_index`: the pair at a position, if the position is in range.
#[verifier::external_body]
pub(crate) fn index_get_index(m: &IndexMap<usize, usize, RandomState>, index: usize) -> (r: Option<
    (usize, usize),
>)
    ensures
        r is Some <==> index < index_entries(*m).len(),
        r matches Some(e) ==> e == index_entries(*m)[index as int],
{
    match m.get_index(index) {
        Some((k, v)) => Some((*k, *v)),
        None => None,
    }
}

/// `IndexMap::len`: the number of pairs held.
#[verifier::external_body]
pub(crate) fn index_len(m: &IndexMap<usize, usize, RandomState>) -> (r: usize)
    ensures
        r == index_entries(*m).len(),
{
    m.len()
}

impl Interner {
    /// Whether the interner holds `name`.
    pub open spec fn contains_name(&self, name: Seq<char>) -> bool {
        interned(*self).contains(name)
    }
}

} // verus!
