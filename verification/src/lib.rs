//! A predicate-compiling query engine over row stores partitioned into
//! fixed-size leaves, together with a small model of the storage layer it
//! runs against (keys, schemas, transaction lifecycle) and size-estimation
//! helpers for the columnar array encoding.

use vstd::prelude::*;

pub mod ast;
pub mod compress;
pub mod keys;
pub mod laws;
pub mod node;
pub mod query;
pub mod scanner;
pub mod source;
pub mod store;
pub mod table;
pub mod value;

verus! {

/// Whether an array value encodes a reference to a child node rather than a
/// payload integer: references are the nonzero even values.
pub fn is_ref(value: i64) -> (r: bool)
    ensures
        r == (value != 0 && value % 2 == 0),
{
    value != 0 && value % 2 == 0
}

} // verus!
