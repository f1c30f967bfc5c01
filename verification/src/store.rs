use dashmap::DashMap;
use vstd::prelude::*;

use crate::record::{Url, UrlView};

verus! {

/// `dashmap::DashMap`, made known so that it can stand in a field and in
/// signatures. Nothing inside it is visible here: what a map holds is
/// spoken of through `stored`, and only the functions below touch it.
#[verifier::external_type_specification]
#[verifier::external_body]
#[verifier::reject_recursive_types(K)]
#[verifier::reject_recursive_types(V)]
#[verifier::reject_recursive_types(S)]
pub struct ExDashMap<K, V, S>(DashMap<K, V, S>);

/// The records that a map holds, each under the characters of its key.
/// The functions below say how each operation of the map reads or changes
/// them; apart from that nothing is known of them.
pub uninterp spec fn stored(map: DashMap<String, Url>) -> Map<Seq<char>, UrlView>;

/// The contents of a map that holds nothing.
pub open spec fn no_records() -> Map<Seq<char>, UrlView> {
    Map::empty()
}

/// Whether `values` holds the value of every entry of `contents`, each
/// entry once: some sequence of distinct keys covers the whole domain and
/// names, position by position, the entry that each value came from.
pub open spec fn holds_values_of(values: Seq<Url>, contents: Map<Seq<char>, UrlView>) -> bool {
    exists|keys: Seq<Seq<char>>| #[trigger] value_keys(keys, values, contents)
}

/// Whether `keys[i]` is, for each `i`, a key of `contents` under which
/// `values[i]` is stored, no key occurs twice, and no key is left out.
pub open spec fn value_keys(
    keys: Seq<Seq<char>>,
    values: Seq<Url>,
    contents: Map<Seq<char>, UrlView>,
) -> bool {
    &&& keys.len() == values.len()
    &&& forall|i: int|
        0 <= i < keys.len() ==> contents.contains_key(#[trigger] keys[i]) && contents[keys[i]]
            == values[i]@
    &&& forall|i: int, j: int|
        0 <= i < j < keys.len() ==> #[trigger] keys[i] != #[trigger] keys[j]
    &&& forall|key: Seq<char>| #[trigger]
        contents.contains_key(key) ==> exists|i: int| 0 <= i < keys.len() && #[trigger] keys[i] == key
}

/// `DashMap::new`: the new map holds nothing.
#[verifier::external_body]
pub(crate) fn store_new() -> (created: DashMap<String, Url>)
    ensures
        stored(created) == no_records(),
{
    DashMap::new()
}

/// `DashMap::insert`: afterwards `key` maps to `value` and every other key
/// is as before. The value that `key` had is handed back.
#[verifier::external_body]
pub(crate) fn store_insert(
    map: &mut DashMap<String, Url>,
    key: String,
    value: Url,
) -> (previous: Option<Url>)
    ensures
        stored(*final(map)) == stored(*old(map)).insert(key@, value@),
        match previous {
            Some(record) => {
                &&& stored(*old(map)).contains_key(key@)
                &&& record@ == stored(*old(map))[key@]
            },
            None => !stored(*old(map)).contains_key(key@),
        },
{
    map.insert(key, value)
}

/// `DashMap::get`: a copy of the value stored under `key`, if there is one.
#[verifier::external_body]
pub(crate) fn store_get(map: &DashMap<String, Url>, key: &str) -> (found: Option<Url>)
    ensures
        match found {
            Some(record) => stored(*map).contains_key(key@) && record@ == stored(*map)[key@],
            None => !stored(*map).contains_key(key@),
        },
{
    map.get(key).map(|entry| entry.value().clone())
}

/// `DashMap::len`: the number of keys.
#[verifier::external_body]
pub(crate) fn store_len(map: &DashMap<String, Url>) -> (n: usize)
    ensures
        n == stored(*map).dom().len(),
{
    map.len()
}

/// `DashMap::iter`: a copy of the value of every entry, each entry once,
/// in no particular order.
#[verifier::external_body]
pub(crate) fn store_values(map: &DashMap<String, Url>) -> (values: Vec<Url>)
    ensures
        holds_values_of(values@, stored(*map)),
{
    map.iter().map(|entry| entry.value().clone()).collect()
}

} // verus!
