//! The migration scripts are frozen: their SQL never changes.

use havit::migrations::v1_initial_migration;
use havit::migrations::v2_add_unique_index;

#[test]
fn test_v1_creates_files_table() {
    assert_eq!(
        v1_initial_migration::migration(),
        "CREATE TABLE \"files\" (\"id\" INTEGER NOT NULL PRIMARY KEY, \"name\" VARCHAR(255) NOT NULL, \"path\" TEXT NOT NULL, \"size\" INTEGER NOT NULL, \"ctime\" DATE NOT NULL, \"mtime\" DATE NOT NULL, \"atime\" DATE NOT NULL, \"hash\" VARCHAR(64) NOT NULL);"
    );
}

#[test]
fn test_v1_matches_schema_builder_output() {
    // The same table definition, built with the barrel schema builder:
    // the shipped script is exactly what the builder generates.
    let mut m = barrel::Migration::new();
    m.create_table("files", |t| {
        t.add_column("id", barrel::types::primary());
        t.add_column("name", barrel::types::varchar(255));
        t.add_column("path", barrel::types::text());
        t.add_column("size", barrel::types::integer());
        t.add_column("ctime", barrel::types::date());
        t.add_column("mtime", barrel::types::date());
        t.add_column("atime", barrel::types::date());
        t.add_column("hash", barrel::types::varchar(64));
    });
    assert_eq!(v1_initial_migration::migration(), m.make::<barrel::backend::Sqlite>());
}

#[test]
fn test_v2_creates_unique_index() {
    assert_eq!(
        v2_add_unique_index::migration(),
        "CREATE UNIQUE INDEX \"unique_fullpath\" ON \"files\" (\"name\", \"path\");"
    );
}
