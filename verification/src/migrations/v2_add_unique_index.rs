//! Version 2: a unique index on `(name, path)`.
//!
//! Whether this migration belongs to the target schema is a
//! configuration choice of the migrator: the index rejects duplicate
//! entries at insert time and roughly doubles the store's size, and some
//! deployments prefer to allow intentional duplicates.

use vstd::prelude::*;

verus! {

/// The SQL this migration applies.
pub open spec fn sql() -> Seq<char> {
    "CREATE UNIQUE INDEX \"unique_fullpath\" ON \"files\" (\"name\", \"path\");"@
}

/// The migration script, exactly as shipped.
pub fn migration() -> (s: String)
    ensures
        s@ == sql(),
{
    String::from_str("CREATE UNIQUE INDEX \"unique_fullpath\" ON \"files\" (\"name\", \"path\");")
}

} // verus!
