//! Version 1: create the `files` table.
//!
//! One row per cataloged file: surrogate primary key, base name,
//! containing directory, signed 64-bit size, three timestamps, and the
//! content hash as 64 hex characters.

use vstd::prelude::*;

verus! {

/// The SQL this migration applies.
pub open spec fn sql() -> Seq<char> {
    "CREATE TABLE \"files\" (\"id\" INTEGER NOT NULL PRIMARY KEY, \"name\" VARCHAR(255) NOT NULL, \"path\" TEXT NOT NULL, \"size\" INTEGER NOT NULL, \"ctime\" DATE NOT NULL, \"mtime\" DATE NOT NULL, \"atime\" DATE NOT NULL, \"hash\" VARCHAR(64) NOT NULL);"@
}

/// The migration script, exactly as shipped.
pub fn migration() -> (s: String)
    ensures
        s@ == sql(),
{
    String::from_str(
        "CREATE TABLE \"files\" (\"id\" INTEGER NOT NULL PRIMARY KEY, \"name\" VARCHAR(255) NOT NULL, \"path\" TEXT NOT NULL, \"size\" INTEGER NOT NULL, \"ctime\" DATE NOT NULL, \"mtime\" DATE NOT NULL, \"atime\" DATE NOT NULL, \"hash\" VARCHAR(64) NOT NULL);",
    )
}

} // verus!
