//! The insertion-ordered schema map.  The map type comes from the
//! `indexmap` crate and is opaque to the verifier; the only fact the
//! library relies on is the sequence of keys it yields, named by
//! [`schema_keys`] and produced by the trusted [`schema_key_list`].

use vstd::prelude::*;

verus! {

use indexmap::IndexMap;

use crate::config::ColumnType;

#[verifier::external_type_specification]
#[verifier::external_body]
#[verifier::reject_recursive_types(K)]
#[verifier::reject_recursive_types(V)]
#[verifier::reject_recursive_types(S)]
pub struct ExIndexMap<K, V, S>(IndexMap<K, V, S>);

/// The keys of a schema map, in the map's own (insertion) order.
pub uninterp spec fn schema_keys(m: IndexMap<String, ColumnType>) -> Seq<Seq<char>>;

/// Relies on `indexmap::IndexMap::keys`, which returns an iterator over
/// the keys of the map, in their order; the keys of a map are distinct.
#[verifier::external_body]
pub(crate) fn schema_key_list(schema: &IndexMap<String, ColumnType>) -> (r: Vec<String>)
    ensures
        r.deep_view() == schema_keys(*schema),
        forall|i: int, j: int|
            0 <= i < j < r.deep_view().len() ==> r.deep_view()[i] != r.deep_view()[j],
{
    schema.keys().cloned().collect()
}

} // verus!
