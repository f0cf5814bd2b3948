//! Entity-to-table name resolution over a `HashMap` of names.
//!
//! vstd's `HashMap` specifications need a key model, which `String` keys do
//! not have, so the map is reached through the wrappers below, which speak
//! of its contents by name.

use vstd::prelude::*;
use std::collections::HashMap;

verus! {

/// A map from entity names to table names.
pub type NameMap = HashMap<String, String>;

/// The entries of a name map, by the text of their keys and values.
pub uninterp spec fn mapping_of(m: NameMap) -> Map<Seq<char>, Seq<char>>;

/// What `str::to_lowercase` gives for a text.
pub uninterp spec fn lower_of(s: Seq<char>) -> Seq<char>;

/// Relies on `HashMap::new`: the new map is empty.
#[verifier::external_body]
pub(crate) fn map_new() -> (r: NameMap)
    ensures
        mapping_of(r) =~= Map::empty(),
{
    HashMap::new()
}

/// Relies on `HashMap::insert`: the key now maps to the value, the rest is kept.
#[verifier::external_body]
pub(crate) fn map_insert(m: &mut NameMap, k: String, v: String)
    ensures
        mapping_of(*final(m)) == mapping_of(*old(m)).insert(k@, v@),
{
    m.insert(k, v);
}

/// Relies on `HashMap::get`: the value under the key, if there is one.
#[verifier::external_body]
pub(crate) fn map_get<'a>(m: &'a NameMap, k: &str) -> (r: Option<&'a String>)
    ensures
        match r {
            Some(v) => mapping_of(*m).contains_key(k@) && v@ == mapping_of(*m)[k@],
            None => !mapping_of(*m).contains_key(k@),
        },
{
    m.get(k)
}

/// Relies on `HashMap::clone`: the copy has the same entries.
#[verifier::external_body]
pub(crate) fn map_clone(m: &NameMap) -> (r: NameMap)
    ensures
        mapping_of(r) == mapping_of(*m),
{
    m.clone()
}

/// Relies on `str::to_lowercase`: the result depends on the text alone.
#[verifier::external_body]
pub(crate) fn lowercase(s: &str) -> (r: String)
    ensures
        r@ == lower_of(s@),
{
    s.to_lowercase()
}

/// The table of an entity: its mapped name, else the entity name in lower case.
pub open spec fn table_name_of(m: Map<Seq<char>, Seq<char>>, entity: Seq<char>) -> Seq<char> {
    if m.contains_key(entity) {
        m[entity]
    } else {
        lower_of(entity)
    }
}

/// Resolves the table of an entity.
pub fn resolve_table_name(m: &NameMap, entity: &str) -> (r: String)
    ensures
        r@ == table_name_of(mapping_of(*m), entity@),
{
    match map_get(m, entity) {
        Some(t) => t.clone(),
        None => lowercase(entity),
    }
}

} // verus!
