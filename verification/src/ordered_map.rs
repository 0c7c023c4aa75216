//! Insertion-ordered hash maps.
//!
//! The maps themselves are `indexmap::IndexMap`. Verification sees such a map
//! only through the sequence of its entries, in the order in which their keys
//! were first inserted, and through the contracts stated here for the few
//! operations the crate performs on it. Those contracts are taken on trust
//! from the documentation of `indexmap`.
use crate::decimal::Decimal;
use crate::intermediate_node::length::LengthUnit;
use crate::intermediate_node::CSSVariable;
use crate::schema::{Component, Style};
use indexmap::IndexMap;
use vstd::prelude::*;

verus! {

/// `indexmap::IndexMap`: a hash map that keeps its entries in the order in
/// which their keys were first inserted. Nothing inside it is visible to
/// verification.
#[verifier::external_type_specification]
#[verifier::external_body]
#[verifier::reject_recursive_types(K)]
#[verifier::reject_recursive_types(V)]
#[verifier::reject_recursive_types(S)]
pub struct ExIndexMap<K, V, S>(IndexMap<K, V, S>);

/// What a term of a sum is accumulated under: its unit, or the name of its
/// custom property.
#[derive(Debug, PartialEq, Eq, Hash)]
pub enum TermKey {
    Unit(LengthUnit),
    Variable(String),
}

/// The mathematical value of a [`TermKey`].
pub ghost enum TermKeyView {
    Unit(LengthUnit),
    Variable(Seq<char>),
}

impl View for TermKey {
    type V = TermKeyView;

    open spec fn view(&self) -> TermKeyView {
        match self {
            TermKey::Unit(unit) => TermKeyView::Unit(*unit),
            TermKey::Variable(name) => TermKeyView::Variable(name@),
        }
    }
}

/// What has been accumulated under one key.
#[derive(Clone, Copy, Debug)]
pub struct TermTotal {
    pub amount: Decimal,
    pub relative: Option<bool>,
}

/// The entries of a map of accumulated terms.
pub type TermEntries = Seq<(TermKeyView, TermTotal)>;

/// The index of the entry of `key`, or -1 where `key` has no entry.
pub open spec fn key_index<K, V>(entries: Seq<(K, V)>, key: K) -> int
    decreases entries.len(),
{
    if entries.len() == 0 {
        -1
    } else if entries.last().0 == key {
        entries.len() - 1
    } else {
        key_index(entries.drop_last(), key)
    }
}

/// What is stored under `key`.
pub open spec fn stored<K, V>(entries: Seq<(K, V)>, key: K) -> Option<V> {
    if key_index(entries, key) < 0 {
        None
    } else {
        Some(entries[key_index(entries, key)].1)
    }
}

/// The entries after `value` is stored under `key`: in place where `key` has
/// an entry, else as the last entry.
pub open spec fn put<K, V>(entries: Seq<(K, V)>, key: K, value: V) -> Seq<(K, V)> {
    if key_index(entries, key) < 0 {
        entries.push((key, value))
    } else {
        entries.update(key_index(entries, key), (key, value))
    }
}

/// Where `key` has an entry, its index is one.
pub proof fn lemma_key_index_in_range<K, V>(entries: Seq<(K, V)>, key: K)
    ensures
        -1 <= key_index(entries, key) < entries.len(),
        key_index(entries, key) >= 0 ==> entries[key_index(entries, key)].0 == key,
    decreases entries.len(),
{
    if entries.len() > 0 && entries.last().0 != key {
        lemma_key_index_in_range(entries.drop_last(), key);
    }
}

/// The entries of `map`, in the order in which their keys were first inserted.
pub uninterp spec fn term_entries(map: IndexMap<TermKey, TermTotal>) -> TermEntries;

/// `IndexMap::new`: a map without entries.
#[verifier::external_body]
pub(crate) fn term_map_new() -> (map: IndexMap<TermKey, TermTotal>)
    ensures
        term_entries(map) == Seq::<(TermKeyView, TermTotal)>::empty(),
{
    IndexMap::new()
}

/// `IndexMap::get`: the value stored under `key`, if there is one.
#[verifier::external_body]
pub(crate) fn term_map_get(map: &IndexMap<TermKey, TermTotal>, key: &TermKey) -> (r: Option<
    TermTotal,
>)
    ensures
        r == stored(term_entries(*map), key@),
{
    map.get(key).copied()
}

/// `IndexMap::insert`: an existing key keeps its place and gets the new
/// value; a new key becomes the last entry.
#[verifier::external_body]
pub(crate) fn term_map_insert(map: &mut IndexMap<TermKey, TermTotal>, key: TermKey, value: TermTotal)
    ensures
        term_entries(*final(map)) == put(term_entries(*old(map)), key@, value),
{
    map.insert(key, value);
}

/// `IndexMap::into_iter`: the entries, in their order.
#[verifier::external_body]
pub(crate) fn term_map_into_entries(map: IndexMap<TermKey, TermTotal>) -> (entries: Vec<
    (TermKey, TermTotal),
>)
    ensures
        entries@.len() == term_entries(map).len(),
        forall|i: int|
            0 <= i < entries@.len() ==> (#[trigger] entries@[i]).0@ == term_entries(map)[i].0
                && entries@[i].1 == term_entries(map)[i].1,
{
    map.into_iter().collect()
}

/// The mathematical value of a [`CSSVariable`].
pub ghost struct VariableView {
    pub name: Seq<char>,
    pub value: Option<Seq<char>>,
}

impl View for CSSVariable {
    type V = VariableView;

    open spec fn view(&self) -> VariableView {
        VariableView {
            name: self.name@,
            value: match self.value {
                Some(v) => Some(v@),
                None => None,
            },
        }
    }
}

/// The entries of a registry of custom properties: the id of a shared style
/// with the custom property that stands for it.
pub type VariableEntries = Seq<(Seq<char>, VariableView)>;

/// The entries of `map`, in the order in which their keys were first inserted.
pub uninterp spec fn variable_entries(map: IndexMap<String, CSSVariable>) -> VariableEntries;

/// `IndexMap::new`: a map without entries.
#[verifier::external_body]
pub(crate) fn variables_new() -> (map: IndexMap<String, CSSVariable>)
    ensures
        variable_entries(map) == Seq::<(Seq<char>, VariableView)>::empty(),
{
    IndexMap::new()
}

/// `IndexMap::get`: the name of the custom property stored under `key`, if
/// there is one.
#[verifier::external_body]
pub(crate) fn variables_name_of(map: &IndexMap<String, CSSVariable>, key: &str) -> (r: Option<String>)
    ensures
        r.is_some() == stored(variable_entries(*map), key@).is_some(),
        r.is_some() ==> r.unwrap()@ == stored(variable_entries(*map), key@).unwrap().name,
{
    map.get(key).map(|variable| variable.name.clone())
}

/// `IndexMap::insert`: an existing key keeps its place and gets the new
/// value; a new key becomes the last entry.
#[verifier::external_body]
pub(crate) fn variables_insert(map: &mut IndexMap<String, CSSVariable>, key: String, value: CSSVariable)
    ensures
        variable_entries(*final(map)) == put(variable_entries(*old(map)), key@, value@),
{
    map.insert(key, value);
}

/// `IndexMap::values`: name and value of each custom property, in the order
/// of the entries.
#[verifier::external_body]
pub(crate) fn variables_values(map: &IndexMap<String, CSSVariable>) -> (values: Vec<CSSVariable>)
    ensures
        values@.len() == variable_entries(*map).len(),
        forall|i: int|
            0 <= i < values@.len() ==> (#[trigger] values@[i])@ == variable_entries(*map)[i].1,
{
    map.values().cloned().collect()
}

/// The entries of a map of shared styles, in the order in which their ids
/// were first inserted.
pub uninterp spec fn style_entries(map: IndexMap<String, Style>) -> Seq<(Seq<char>, Style)>;

/// `IndexMap::iter`: the id of each shared style with the name of the style,
/// in the order of the entries.
#[verifier::external_body]
pub(crate) fn style_names(map: &IndexMap<String, Style>) -> (names: Vec<(String, String)>)
    ensures
        names@.len() == style_entries(*map).len(),
        forall|i: int|
            0 <= i < names@.len() ==> (#[trigger] names@[i]).0@ == style_entries(*map)[i].0
                && names@[i].1@ == style_entries(*map)[i].1.name@,
{
    map.iter().map(|(id, style)| (id.clone(), style.name.clone())).collect()
}

/// The entries of a map of published components, in the order in which
/// their ids were first inserted.
pub uninterp spec fn component_entries(map: IndexMap<String, Component>) -> Seq<
    (Seq<char>, Component),
>;

/// `IndexMap::get`: the component stored under `key`, if there is one.
#[verifier::external_body]
pub(crate) fn components_get<'a>(map: &'a IndexMap<String, Component>, key: &str) -> (r: Option<
    &'a Component,
>)
    ensures
        r.is_some() == stored(component_entries(*map), key@).is_some(),
        r.is_some() ==> *r.unwrap() == stored(component_entries(*map), key@).unwrap(),
{
    map.get(key)
}

} // verus!
