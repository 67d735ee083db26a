//! The ordered maps and the string interner that the symbol table is built
//! on, with the contracts that are assumed of them.
//!
//! The functions of this module are not verified. Each one makes one call
//! into `ordermap` or `string_interner`; its contract says what the call does
//! to the contents of the collection, which are named by the specification
//! functions `interned`, `symbol_entries` and `ordinal_entries`.

use std::collections::hash_map::RandomState;

use ordermap::OrderMap;
use string_interner::StringInterner;
use vstd::prelude::*;

use crate::symbol::SymbolBuilder;

verus! {

/// `ordermap::OrderMap`, a hash map that keeps its entries in the order of
/// their insertion. Nothing is known of a map but what the functions of
/// this module state of its entries.
#[verifier::external_type_specification]
#[verifier::external_body]
#[verifier::reject_recursive_types(K)]
#[verifier::reject_recursive_types(V)]
#[verifier::reject_recursive_types(S)]
pub struct ExOrderMap<K, V, S>(OrderMap<K, V, S>);

/// The string table: a `string_interner::StringInterner` whose symbols are
/// `usize` positions. The interner is generic over a trait of its own crate,
/// so it is held here as an opaque field.
#[verifier::external_body]
#[derive(Debug)]
pub struct StrTable {
    inner: StringInterner<usize, RandomState>,
}

/// The strings that an interner holds, in the order in which they were first
/// interned. The symbol of a string is its position in this sequence.
pub uninterp spec fn interned(interner: StrTable) -> Seq<Seq<char>>;

/// The entries of a map from string symbols to symbols of the object file,
/// in insertion order.
pub uninterp spec fn symbol_entries(map: OrderMap<usize, SymbolBuilder, RandomState>) -> Seq<
    (usize, SymbolBuilder),
>;

/// The entries of a map from string symbols to ordinals, in insertion order.
pub uninterp spec fn ordinal_entries(map: OrderMap<usize, usize, RandomState>) -> Seq<
    (usize, usize),
>;

/// Whether some entry of a map has the key `key`.
pub open spec fn has_key<V>(entries: Seq<(usize, V)>, key: usize) -> bool {
    exists|i: int| 0 <= i < entries.len() && (#[trigger] entries[i]).0 == key
}

/// `StringInterner::new`: an interner that holds no string.
#[verifier::external_body]
pub(crate) fn interner_new() -> (interner: StrTable)
    ensures
        interned(interner) == Seq::<Seq<char>>::empty(),
{
    StrTable { inner: StringInterner::new() }
}

/// `StringInterner::len`: the number of strings held.
#[verifier::external_body]
pub(crate) fn interner_len(interner: &StrTable) -> (len: usize)
    ensures
        len == interned(*interner).len(),
{
    interner.inner.len()
}

/// `StringInterner::get_or_intern`: the symbol of `name`. A string that is
/// already held keeps its symbol and the interner is unchanged; a new string
/// is appended, and its symbol is the number of strings held before.
#[verifier::external_body]
pub(crate) fn interner_get_or_intern(interner: &mut StrTable, name: &str) -> (symbol: usize)
    ensures
        interned(*old(interner)).contains(name@) ==> {
            &&& interned(*final(interner)) == interned(*old(interner))
            &&& symbol < interned(*old(interner)).len()
            &&& interned(*old(interner))[symbol as int] == name@
        },
        !interned(*old(interner)).contains(name@) ==> {
            &&& interned(*final(interner)) == interned(*old(interner)).push(name@)
            &&& symbol == interned(*old(interner)).len()
        },
{
    interner.inner.get_or_intern(name)
}

/// `StringInterner::get`: the symbol of `name` if the interner holds it.
#[verifier::external_body]
pub(crate) fn interner_get(interner: &StrTable, name: &str) -> (symbol: Option<usize>)
    ensures
        match symbol {
            Some(s) => s < interned(*interner).len() && interned(*interner)[s as int] == name@,
            None => !interned(*interner).contains(name@),
        },
{
    interner.inner.get(name)
}

/// `StringInterner::into_iter`, collected: the strings held, in the order
/// of their symbols.
#[verifier::external_body]
pub(crate) fn interner_into_strings(interner: StrTable) -> (strings: Vec<String>)
    ensures
        strings@.len() == interned(interner).len(),
        forall|i: int|
            0 <= i < strings@.len() ==> (#[trigger] strings@[i])@ == interned(interner)[i],
{
    interner.inner.into_iter().map(|(_, string)| string).collect()
}

/// `OrderMap::new`: a map without entries.
#[verifier::external_body]
pub(crate) fn symbols_new() -> (map: OrderMap<usize, SymbolBuilder, RandomState>)
    ensures
        symbol_entries(map) == Seq::<(usize, SymbolBuilder)>::empty(),
{
    OrderMap::new()
}

/// `OrderMap::len`: the number of entries.
#[verifier::external_body]
pub(crate) fn symbols_len(map: &OrderMap<usize, SymbolBuilder, RandomState>) -> (len: usize)
    ensures
        len == symbol_entries(*map).len(),
{
    map.len()
}

/// `OrderMap::insert`: an entry with a new key goes last; the entry of a
/// key that the map has keeps its place and takes the new value.
#[verifier::external_body]
pub(crate) fn symbols_insert(
    map: &mut OrderMap<usize, SymbolBuilder, RandomState>,
    key: usize,
    value: SymbolBuilder,
)
    ensures
        !has_key(symbol_entries(*old(map)), key) ==> symbol_entries(*final(map))
            == symbol_entries(*old(map)).push((key, value)),
        forall|i: int|
            0 <= i < symbol_entries(*old(map)).len() && (#[trigger] symbol_entries(
                *old(map),
            )[i]).0 == key ==> symbol_entries(*final(map)) == symbol_entries(*old(map)).update(
                i,
                (key, value),
            ),
{
    map.insert(key, value);
}

/// `OrderMap::get`: the value of the entry with the key `key`, if there is
/// one.
#[verifier::external_body]
pub(crate) fn symbols_get(map: &OrderMap<usize, SymbolBuilder, RandomState>, key: usize) -> (found:
    Option<SymbolBuilder>)
    ensures
        match found {
            Some(value) => exists|i: int|
                0 <= i < symbol_entries(*map).len() && #[trigger] symbol_entries(*map)[i] == (
                    key,
                    value,
                ),
            None => !has_key(symbol_entries(*map), key),
        },
{
    map.get(&key).cloned()
}

/// `OrderMap::into_iter`, collected: the values of the entries, in
/// insertion order.
#[verifier::external_body]
pub(crate) fn symbols_into_values(map: OrderMap<usize, SymbolBuilder, RandomState>) -> (values:
    Vec<SymbolBuilder>)
    ensures
        values@.len() == symbol_entries(map).len(),
        forall|i: int|
            0 <= i < values@.len() ==> #[trigger] values@[i] == symbol_entries(map)[i].1,
{
    map.into_iter().map(|(_, value)| value).collect()
}

/// `OrderMap::new`: a map without entries.
#[verifier::external_body]
pub(crate) fn ordinals_new() -> (map: OrderMap<usize, usize, RandomState>)
    ensures
        ordinal_entries(map) == Seq::<(usize, usize)>::empty(),
{
    OrderMap::new()
}

/// `OrderMap::insert`: an entry with a new key goes last; the entry of a
/// key that the map has keeps its place and takes the new value.
#[verifier::external_body]
pub(crate) fn ordinals_insert(
    map: &mut OrderMap<usize, usize, RandomState>,
    key: usize,
    value: usize,
)
    ensures
        !has_key(ordinal_entries(*old(map)), key) ==> ordinal_entries(*final(map))
            == ordinal_entries(*old(map)).push((key, value)),
        forall|i: int|
            0 <= i < ordinal_entries(*old(map)).len() && (#[trigger] ordinal_entries(
                *old(map),
            )[i]).0 == key ==> ordinal_entries(*final(map)) == ordinal_entries(*old(map)).update(
                i,
                (key, value),
            ),
{
    map.insert(key, value);
}

/// `OrderMap::get`: the value of the entry with the key `key`, if there is
/// one.
#[verifier::external_body]
pub(crate) fn ordinals_get(map: &OrderMap<usize, usize, RandomState>, key: usize) -> (found:
    Option<usize>)
    ensures
        match found {
            Some(value) => exists|i: int|
                0 <= i < ordinal_entries(*map).len() && #[trigger] ordinal_entries(*map)[i] == (
                    key,
                    value,
                ),
            None => !has_key(ordinal_entries(*map), key),
        },
{
    map.get(&key).cloned()
}

} // verus!
