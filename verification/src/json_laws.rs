//! What holds of setting keys of tables, whatever they are.

use vstd::prelude::*;

use crate::json::{at, empty_table, get, lookup_put, with_key, JsonV};

verus! {

/// Setting a key of a table sets that key and leaves all others as they are.
pub broadcast proof fn key_set(t: JsonV, k: Seq<char>, v: JsonV, other: Seq<char>)
    requires
        t is Table,
    ensures
        #[trigger] at(with_key(t, k, v), other) == if other == k {
            v
        } else {
            at(t, other)
        },
{
    lookup_put(t->Table_0, k, v, other);
}

/// A table with a key set is a table.
pub broadcast proof fn stays_table(t: JsonV, k: Seq<char>, v: JsonV)
    requires
        t is Table,
    ensures
        (#[trigger] with_key(t, k, v)) is Table,
{
}

/// The empty table has nothing at any key.
pub broadcast proof fn empty_has_none(k: Seq<char>)
    ensures
        #[trigger] at(empty_table(), k) == JsonV::Null,
        get(empty_table(), k) is None,
{
}

} // verus!
