//! The transactional store behind the catalog.
//!
//! A [`Catalog`] wraps one connection to the embedded relational store
//! and models its observable state: the sequence of rows of the `files`
//! table, the set of applied migration versions, and the state of the one
//! enclosing transaction. Every call into the store goes through a small
//! trusted wrapper whose contract says how it moves that model.

use vstd::prelude::*;

use crate::record::FileRecord;

verus! {

#[verifier::external_type_specification]
#[verifier::external_body]
pub struct ExConnection(rusqlite::Connection);

#[verifier::external_type_specification]
#[verifier::external_body]
pub struct ExSqlError(rusqlite::Error);

/// The sqlite extended result code for a violated unique constraint.
pub const UNIQUE_VIOLATION_CODE: i64 = 2067;

/// The sqlite generic error code, reported among else for a statement
/// naming a table that does not exist.
pub const GENERIC_ERROR_CODE: i64 = 1;

/// Everything that can go wrong while cataloging. The store's own error
/// values are reduced to their result code and rendered message; the
/// messages are carried for reporting only.
#[derive(Debug)]
pub enum CatalogError {
    /// The store file could not be opened or created.
    Open { code: i64, message: String },
    /// The migration history could not be read or created.
    History { code: i64, message: String },
    /// The store records a migration this program does not know: the
    /// store is newer than the program.
    StoreNewer { version: u64 },
    /// A known migration failed to apply.
    Migration { version: u64, code: i64, message: String },
    /// Inserting a record violated the unique `(name, path)` constraint.
    Duplicate { name: String, dir: String },
    /// The store reported its generic error code for an insert; a
    /// statement naming a missing `files` table (the store was not
    /// migrated) is the one way the writer produces that code, though
    /// the store uses it for other SQL faults too.
    MissingTable { name: String, dir: String },
    /// An insert reported a change count other than one: store corruption
    /// or driver misbehavior, never recoverable.
    ChangeCount { count: u64, name: String, dir: String },
    /// Any other store failure.
    Sql { code: i64, message: String },
}

/// How many of the rows carry the given hash.
pub open spec fn count_hash_spec(rows: Seq<FileRecord>, hash: Seq<char>) -> nat {
    rows.filter(|r: FileRecord| r.hash == hash).len()
}

/// Whether some row carries the given name and containing directory.
pub open spec fn has_name_dir(rows: Seq<FileRecord>, name: Seq<char>, dir: Seq<char>) -> bool {
    exists|k: int| 0 <= k < rows.len() && rows[k].name == name && rows[k].dir == dir
}

/// The state a failed statement leaves behind: either the statement
/// alone was rolled back and nothing moved, or the store rolled the
/// whole transaction back (it may, on conditions such as a full disk),
/// so the rows are at the boundary and no rollback is owed any more.
pub open spec fn settled_or_unchanged(pre: Catalog, post: Catalog) -> bool {
    (post.in_tx() == pre.in_tx() && post.rows() == pre.rows()) || (!post.in_tx() && post.rows()
        == pre.base())
}

/// One open store, together with the model of its observable state.
///
/// `rows()` is the content of the `files` table as this connection sees
/// it, uncommitted inserts included; `base()` is the content at the last
/// transaction boundary, to which a rollback returns; `in_tx()` says
/// that a rollback is still owed — the enclosing transaction may be
/// open, and the rows may differ from the rollback point, until a
/// commit or rollback settles them; `applied()` is the set of migration
/// versions the store records as applied; `has_files()` and
/// `has_unique()` say whether the `files` table and its unique index
/// exist.
pub struct Catalog {
    conn: rusqlite::Connection,
    rows: Ghost<Seq<FileRecord>>,
    base: Ghost<Seq<FileRecord>>,
    in_tx: Ghost<bool>,
    applied: Ghost<Set<u64>>,
    has_files: Ghost<bool>,
    has_unique: Ghost<bool>,
}

impl Catalog {
    /// The rows of the `files` table, in insertion order, as this
    /// connection sees them (an empty sequence while the table does not
    /// exist yet).
    pub closed spec fn rows(self) -> Seq<FileRecord> {
        self.rows@
    }

    /// The rows at the last transaction boundary.
    pub closed spec fn base(self) -> Seq<FileRecord> {
        self.base@
    }

    /// Whether a rollback is still owed: a transaction may be open and
    /// the rows may differ from the rollback point.
    pub closed spec fn in_tx(self) -> bool {
        self.in_tx@
    }

    /// The migration versions the store records as applied, each taken
    /// as its unsigned 64-bit image (the history column is a signed
    /// store integer; a negative version, which no migration of this
    /// program ever records, maps to a huge image that the migrator
    /// rejects as unknown).
    pub closed spec fn applied(self) -> Set<u64> {
        self.applied@
    }

    /// Whether the `files` table exists.
    pub closed spec fn has_files(self) -> bool {
        self.has_files@
    }

    /// Whether the unique `(name, path)` index exists.
    pub closed spec fn has_unique(self) -> bool {
        self.has_unique@
    }

    /// Relies on rusqlite::Connection::open: opens the store at the given
    /// path, creating it if absent. The catalog starts outside any
    /// transaction, with whatever rows, schema and applied migrations
    /// the store already holds.
    #[verifier::external_body]
    fn open_conn(path: &str) -> (r: Result<Catalog, rusqlite::Error>)
        ensures
            match r {
                Ok(c) => !c.in_tx() && c.base() == c.rows(),
                Err(_) => true,
            },
    {
        let conn = rusqlite::Connection::open(path)?;
        Ok(Catalog {
            conn,
            rows: Ghost(Seq::empty()),
            base: Ghost(Seq::empty()),
            in_tx: Ghost(false),
            applied: Ghost(Set::empty()),
            has_files: Ghost(false),
            has_unique: Ghost(false),
        })
    }

    /// Relies on rusqlite::Connection::execute_batch: creates the
    /// migration history table if it is not there yet; rows, applied
    /// set, schema flags and transaction state are untouched either way
    /// (a single statement outside any transaction is atomic).
    #[verifier::external_body]
    pub(crate) fn ensure_history(&mut self) -> (r: Result<(), rusqlite::Error>)
        requires
            !old(self).in_tx(),
        ensures
            final(self).rows() == old(self).rows(),
            final(self).base() == old(self).base(),
            final(self).in_tx() == old(self).in_tx(),
            final(self).applied() == old(self).applied(),
            final(self).has_files() == old(self).has_files(),
            final(self).has_unique() == old(self).has_unique(),
    {
        self.conn.execute_batch(
            "CREATE TABLE IF NOT EXISTS schema_history (version INTEGER NOT NULL PRIMARY KEY, name TEXT NOT NULL)",
        )
    }

    /// Relies on rusqlite::Connection::prepare and Statement::query_map
    /// over the history table: on success, the applied versions, one
    /// entry per recorded version — each the unsigned 64-bit image of
    /// the signed stored value, as `applied()` is defined, so no order
    /// among the images is claimed.
    #[verifier::external_body]
    pub(crate) fn read_applied(&self) -> (r: Result<Vec<u64>, rusqlite::Error>)
        ensures
            match r {
                Ok(v) => forall|x: u64| v@.contains(x) <==> self.applied().contains(x),
                Err(_) => true,
            },
    {
        let mut stmt = self.conn.prepare("SELECT version FROM schema_history ORDER BY version")?;
        let versions = stmt
            .query_map([], |row| row.get::<_, i64>(0))?
            .collect::<Result<Vec<i64>, _>>()?;
        Ok(versions.into_iter().map(|v| v as u64).collect())
    }

    /// Relies on rusqlite::Connection::unchecked_transaction together
    /// with Transaction::execute_batch, Transaction::execute and
    /// Transaction::commit: applies one known migration script and
    /// records its version in the history, atomically — on failure the
    /// dropped transaction rolls both back. This body deliberately holds
    /// the whole apply-and-record protocol (four calls) as one trusted
    /// unit: splitting it would leave the atomicity itself unstated.
    /// Success of the first script means the `files` table exists, of
    /// the second that the unique index does.
    #[verifier::external_body]
    pub(crate) fn apply_script(&mut self, version: u64, name: &str, sql: &str) -> (r: Result<
        (),
        rusqlite::Error,
    >)
        requires
            !old(self).in_tx(),
            (version == 1 && sql@ == crate::migrations::v1_initial_migration::sql()) || (version
                == 2 && sql@ == crate::migrations::v2_add_unique_index::sql()),
        ensures
            final(self).rows() == old(self).rows(),
            final(self).base() == old(self).base(),
            final(self).in_tx() == old(self).in_tx(),
            match r {
                Ok(_) => final(self).applied() == old(self).applied().insert(version)
                    && (version == 1 ==> final(self).has_files()
                        && final(self).has_unique() == old(self).has_unique())
                    && (version == 2 ==> final(self).has_unique()
                        && final(self).has_files() == old(self).has_files()),
                Err(_) => final(self).applied() == old(self).applied()
                    && final(self).has_files() == old(self).has_files()
                    && final(self).has_unique() == old(self).has_unique(),
            },
    {
        let tx = self.conn.unchecked_transaction()?;
        tx.execute_batch(sql)?;
        tx.execute(
            "INSERT INTO schema_history (version, name) VALUES (?1, ?2)",
            (version as i64, name),
        )?;
        tx.commit()
    }

    /// Relies on rusqlite::Connection::execute_batch("BEGIN"): opens the
    /// enclosing transaction; the rows at this point become the rollback
    /// point.
    #[verifier::external_body]
    pub(crate) fn begin(&mut self) -> (r: Result<(), rusqlite::Error>)
        requires
            !old(self).in_tx(),
        ensures
            final(self).rows() == old(self).rows(),
            final(self).applied() == old(self).applied(),
            final(self).has_files() == old(self).has_files(),
            final(self).has_unique() == old(self).has_unique(),
            match r {
                Ok(_) => final(self).in_tx() && final(self).base() == old(self).rows(),
                Err(_) => !final(self).in_tx() && final(self).base() == old(self).base(),
            },
    {
        self.conn.execute_batch("BEGIN")
    }

    /// Relies on rusqlite::Connection::execute_batch("COMMIT"): on
    /// success the transaction is closed and the rows are durable. On
    /// failure the transaction either survives with the rows intact or
    /// was already rolled back by the store — either way a rollback is
    /// still owed (`in_tx` stays set), and the rollback call settles the
    /// rows at the boundary.
    #[verifier::external_body]
    pub(crate) fn commit(&mut self) -> (r: Result<(), rusqlite::Error>)
        requires
            old(self).in_tx(),
        ensures
            final(self).applied() == old(self).applied(),
            final(self).base() == old(self).base(),
            final(self).has_files() == old(self).has_files(),
            final(self).has_unique() == old(self).has_unique(),
            match r {
                Ok(_) => !final(self).in_tx() && final(self).rows() == old(self).rows(),
                Err(_) => final(self).in_tx() && (final(self).rows() == old(self).rows()
                    || final(self).rows() == old(self).base()),
            },
    {
        match self.conn.execute_batch("COMMIT") {
            Ok(()) => Ok(()),
            Err(e) => Err(e),
        }
    }

    /// Relies on rusqlite::Connection::execute_batch("ROLLBACK") and on
    /// the store's automatic rollback of a transaction that already
    /// failed: afterwards no transaction is open and the rows are those
    /// of the last transaction boundary. A failure of the statement
    /// itself (no transaction left to roll back) is ignored, as the rows
    /// are then already at that boundary — which the precondition
    /// demands where no rollback is owed.
    #[verifier::external_body]
    pub(crate) fn rollback(&mut self)
        requires
            old(self).in_tx() || old(self).rows() == old(self).base(),
        ensures
            !final(self).in_tx(),
            final(self).rows() == old(self).base(),
            final(self).base() == old(self).base(),
            final(self).applied() == old(self).applied(),
            final(self).has_files() == old(self).has_files(),
            final(self).has_unique() == old(self).has_unique(),
    {
        let _ = self.conn.execute_batch("ROLLBACK");
    }

    /// Relies on rusqlite::Connection::execute with a single-row INSERT
    /// into `files`: on success the reported change count — a change
    /// count of one means exactly the given row was appended, any other
    /// count leaves the rows in an unknown state. The insert fails while
    /// the `files` table does not exist, and while the unique index
    /// exists and a row already carries this name and directory. On
    /// failure either the statement alone was rolled back (the rows are
    /// unchanged) or — the store may abort a whole transaction on
    /// conditions such as a full disk — the transaction was rolled back
    /// and the rows are at the boundary, with no rollback owed any more.
    #[verifier::external_body]
    pub(crate) fn insert_row(
        &mut self,
        name: &str,
        dir: &str,
        size: i64,
        ctime: &str,
        mtime: &str,
        atime: &str,
        hash: &str,
    ) -> (r: Result<usize, rusqlite::Error>)
        ensures
            final(self).base() == old(self).base(),
            final(self).applied() == old(self).applied(),
            final(self).has_files() == old(self).has_files(),
            final(self).has_unique() == old(self).has_unique(),
            !old(self).has_files() ==> r matches Err(_),
            old(self).has_unique() && has_name_dir(old(self).rows(), name@, dir@)
                ==> r matches Err(_),
            match r {
                Ok(n) => final(self).in_tx() == old(self).in_tx() && (n == 1 ==> final(self).rows()
                    == old(self).rows().push(
                    (FileRecord {
                        name: name@,
                        dir: dir@,
                        size: size,
                        ctime: ctime@,
                        mtime: mtime@,
                        atime: atime@,
                        hash: hash@,
                    }),
                )),
                Err(_) => settled_or_unchanged(*old(self), *final(self)),
            },
    {
        self.conn.execute(
            "INSERT INTO files (name, path, size, ctime, mtime, atime, hash) VALUES (?1, ?2, ?3, ?4, ?5, ?6, ?7)",
            (name, dir, size, ctime, mtime, atime, hash),
        )
    }

    /// Relies on rusqlite::Connection::query_row with SELECT COUNT(*)
    /// filtered by hash: on success, how many rows carry the given hash
    /// (success also means the `files` table exists — the query fails
    /// without it).
    #[verifier::external_body]
    pub(crate) fn count_hash_rows(&self, hash: &str) -> (r: Result<u64, rusqlite::Error>)
        ensures
            match r {
                Ok(n) => n as nat == count_hash_spec(self.rows(), hash@) && self.has_files(),
                Err(_) => true,
            },
    {
        let n = self.conn.query_row(
            "SELECT COUNT(*) FROM files WHERE hash = ?1",
            (hash,),
            |row| row.get::<_, i64>(0),
        )?;
        Ok(n as u64)
    }

    /// Relies on rusqlite::Connection::query_row with SELECT COUNT(*):
    /// on success, how many rows the `files` table holds (success also
    /// means the table exists — the query fails without it).
    #[verifier::external_body]
    pub(crate) fn count_all_rows(&self) -> (r: Result<u64, rusqlite::Error>)
        ensures
            match r {
                Ok(n) => n as nat == self.rows().len() && self.has_files(),
                Err(_) => true,
            },
    {
        let n = self.conn.query_row("SELECT COUNT(*) FROM files", [], |row| {
            row.get::<_, i64>(0)
        })?;
        Ok(n as u64)
    }
}

/// Relies on rusqlite::Error::SqliteFailure carrying the store's extended
/// result code; any other error variant maps to -1.
#[verifier::external_body]
pub(crate) fn sql_error_code(e: &rusqlite::Error) -> i64 {
    match e {
        rusqlite::Error::SqliteFailure(f, _) => f.extended_code as i64,
        _ => -1,
    }
}

/// Relies on rusqlite::Error's Display rendering for the reported
/// message.
#[verifier::external_body]
pub(crate) fn sql_error_text(e: &rusqlite::Error) -> String {
    e.to_string()
}

/// Reduce a store error to its result code and rendered message.
pub(crate) fn sql_error(e: &rusqlite::Error) -> (r: (i64, String)) {
    (sql_error_code(e), sql_error_text(e))
}

impl Catalog {
    /// Open (creating if absent) the store at the given path. A fresh
    /// catalog stands outside any transaction.
    pub fn open(path: &str) -> (r: Result<Catalog, CatalogError>)
        ensures
            match r {
                Ok(c) => !c.in_tx() && c.base() == c.rows(),
                Err(e) => e matches CatalogError::Open { .. },
            },
    {
        match Self::open_conn(path) {
            Ok(c) => Ok(c),
            Err(e) => {
                let (code, message) = sql_error(&e);
                Err(CatalogError::Open { code, message })
            },
        }
    }

    /// How many rows the `files` table holds (success also means the
    /// table exists).
    pub fn row_count(&self) -> (r: Result<u64, CatalogError>)
        ensures
            match r {
                Ok(n) => n as nat == self.rows().len() && self.has_files(),
                Err(e) => e matches CatalogError::Sql { .. },
            },
    {
        match self.count_all_rows() {
            Ok(n) => Ok(n),
            Err(e) => {
                let (code, message) = sql_error(&e);
                Err(CatalogError::Sql { code, message })
            },
        }
    }

    /// The migration versions the store records as applied, one entry
    /// each, as their unsigned 64-bit images (fails while the history
    /// table does not exist yet).
    pub fn applied_versions(&self) -> (r: Result<Vec<u64>, CatalogError>)
        ensures
            match r {
                Ok(v) => forall|x: u64| v@.contains(x) <==> self.applied().contains(x),
                Err(e) => e matches CatalogError::History { .. },
            },
    {
        match self.read_applied() {
            Ok(v) => Ok(v),
            Err(e) => {
                let (code, message) = sql_error(&e);
                Err(CatalogError::History { code, message })
            },
        }
    }

    /// How many existing records share the given content hash (success
    /// also means the `files` table exists). Never mutates the store.
    pub fn presence_count(&self, hash: &str) -> (r: Result<u64, CatalogError>)
        ensures
            match r {
                Ok(n) => n as nat == count_hash_spec(self.rows(), hash@) && self.has_files(),
                Err(e) => e matches CatalogError::Sql { .. },
            },
    {
        match self.count_hash_rows(hash) {
            Ok(n) => Ok(n),
            Err(e) => {
                let (code, message) = sql_error(&e);
                Err(CatalogError::Sql { code, message })
            },
        }
    }
}

} // verus!
