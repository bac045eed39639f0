//! The catalog writer: one record per regular file.
//!
//! Each regular file among a walk's entries becomes exactly one inserted
//! row; directories and other entries are skipped. An insert must affect
//! exactly one row — any other change count signals store corruption or
//! driver misbehavior and aborts the batch — and a violated unique
//! constraint or a missing (unmigrated) `files` table is reported naming
//! the offending file.

use vstd::prelude::*;

use crate::record::FileEntry;
use crate::record::FileRecord;
use crate::record::WalkEntry;
use crate::record::capped;
use crate::record::clone_string;
use crate::record::files_of;
use crate::record::hashed_total;
use crate::record::lemma_capped_chain;
use crate::record::lemma_walk_step;
use crate::record::records_of;
use crate::record::sat_add;
use crate::record::store_size;
use crate::store::Catalog;
use crate::store::CatalogError;
use crate::store::GENERIC_ERROR_CODE;
use crate::store::has_name_dir;
use crate::store::settled_or_unchanged;
use crate::store::UNIQUE_VIOLATION_CODE;
use crate::store::sql_error_code;
use crate::store::sql_error_text;

verus! {

/// Persist exactly one record for one regular file. On success the rows
/// grow by exactly that record. A change count other than one aborts
/// with the rows in an unknown state (the enclosing transaction's
/// rollback is the only recovery); on every other failure either the
/// statement alone was rolled back, leaving the rows unchanged, or the
/// store aborted the whole transaction, leaving the rows at the
/// boundary with no rollback owed. The insert fails while the `files`
/// table does not exist, and while the unique index exists and a row
/// already carries this file's name and directory.
pub fn insert_record(cat: &mut Catalog, f: &FileEntry) -> (r: Result<(), CatalogError>)
    ensures
        final(cat).base() == old(cat).base(),
        final(cat).applied() == old(cat).applied(),
        final(cat).has_files() == old(cat).has_files(),
        final(cat).has_unique() == old(cat).has_unique(),
        !old(cat).has_files() ==> r matches Err(_),
        old(cat).has_unique() && has_name_dir(old(cat).rows(), f.name@, f.dir@)
            ==> r matches Err(_),
        match r {
            Ok(_) => final(cat).in_tx() == old(cat).in_tx()
                && final(cat).rows() == old(cat).rows().push(f.record()),
            Err(e) => match e {
                CatalogError::Duplicate { name, dir } => name@ == f.name@ && dir@ == f.dir@
                    && settled_or_unchanged(*old(cat), *final(cat)),
                CatalogError::MissingTable { name, dir } => name@ == f.name@ && dir@ == f.dir@
                    && settled_or_unchanged(*old(cat), *final(cat)),
                CatalogError::ChangeCount { count, name, dir } => count != 1 && name@ == f.name@
                    && dir@ == f.dir@ && final(cat).in_tx() == old(cat).in_tx(),
                CatalogError::Sql { .. } => settled_or_unchanged(*old(cat), *final(cat)),
                _ => false,
            },
        },
{
    let size = store_size(f.size);
    let res = cat.insert_row(
        f.name.as_str(),
        f.dir.as_str(),
        size,
        f.ctime.as_str(),
        f.mtime.as_str(),
        f.atime.as_str(),
        f.hash.as_str(),
    );
    match res {
        Ok(n) => {
            if n == 1 {
                Ok(())
            } else {
                Err(
                    CatalogError::ChangeCount {
                        count: n as u64,
                        name: clone_string(&f.name),
                        dir: clone_string(&f.dir),
                    },
                )
            }
        },
        Err(e) => {
            let code = sql_error_code(&e);
            if code == UNIQUE_VIOLATION_CODE {
                Err(
                    CatalogError::Duplicate {
                        name: clone_string(&f.name),
                        dir: clone_string(&f.dir),
                    },
                )
            } else if code == GENERIC_ERROR_CODE {
                Err(
                    CatalogError::MissingTable {
                        name: clone_string(&f.name),
                        dir: clone_string(&f.dir),
                    },
                )
            } else {
                Err(CatalogError::Sql { code, message: sql_error_text(&e) })
            }
        },
    }
}

/// Catalog one walk: insert one record per regular file, in traversal
/// order, and return the number of content bytes hashed (saturating at
/// `u64::MAX`). On success the rows grow by exactly the files' records;
/// on failure the batch is abandoned for the enclosing transaction to
/// roll back (where the store already rolled it back whole, none is
/// owed any more). A walk without regular files has nothing to persist
/// and always succeeds, with zero bytes and the rows unchanged; one
/// holding a regular file fails while the `files` table does not exist.
pub fn add_batch(cat: &mut Catalog, entries: &Vec<WalkEntry>) -> (r: Result<u64, CatalogError>)
    ensures
        final(cat).base() == old(cat).base(),
        final(cat).applied() == old(cat).applied(),
        final(cat).has_files() == old(cat).has_files(),
        final(cat).has_unique() == old(cat).has_unique(),
        match r {
            Ok(total) => final(cat).in_tx() == old(cat).in_tx()
                && final(cat).rows() == old(cat).rows() + records_of(entries@)
                && total == capped(hashed_total(entries@)),
            Err(_) => final(cat).in_tx() == old(cat).in_tx()
                || (!final(cat).in_tx() && final(cat).rows() == final(cat).base()),
        },
        (forall|i: int|
            0 <= i < entries@.len() ==> !(#[trigger] entries@[i] matches WalkEntry::File(_)))
            ==> r matches Ok(_),
        !old(cat).has_files() && (exists|i: int|
            0 <= i < entries@.len() && #[trigger] entries@[i] matches WalkEntry::File(_))
            ==> r matches Err(_),
{
    let mut total: u64 = 0;
    let ghost all = entries@;
    proof {
        assert(files_of(all.take(0)) =~= Seq::<FileEntry>::empty());
        assert(records_of(all.take(0)) =~= Seq::<FileRecord>::empty());
        assert(cat.rows() + records_of(all.take(0)) =~= cat.rows());
    }
    for i in 0..entries.len()
        invariant
            all == entries@,
            cat.rows() == old(cat).rows() + records_of(all.take(i as int)),
            total == capped(hashed_total(all.take(i as int))),
            cat.base() == old(cat).base(),
            cat.in_tx() == old(cat).in_tx(),
            cat.applied() == old(cat).applied(),
            cat.has_files() == old(cat).has_files(),
            cat.has_unique() == old(cat).has_unique(),
            old(cat).has_files() || (forall|j: int|
                0 <= j < i ==> !(#[trigger] all[j] matches WalkEntry::File(_))),
    {
        let ghost prefix = all.take(i as int);
        proof {
            lemma_walk_step(all, i as int);
        }
        match &entries[i] {
            WalkEntry::File(f) => {
                match insert_record(cat, f) {
                    Ok(_) => (),
                    Err(e) => {
                        assert(entries@[i as int] matches WalkEntry::File(_));
                        return Err(e);
                    },
                }
                proof {
                    lemma_capped_chain(hashed_total(prefix), f.hashed_bytes as nat);
                    assert(records_of(all.take(i as int + 1)) =~= records_of(prefix).push(
                        f.record(),
                    ));
                    assert(old(cat).rows() + records_of(all.take(i as int + 1)) =~= (old(
                        cat,
                    ).rows() + records_of(prefix)).push(f.record()));
                }
                total = sat_add(total, f.hashed_bytes);
            },
            _ => {
                proof {
                    assert(records_of(all.take(i as int + 1)) =~= records_of(prefix));
                }
            },
        }
    }
    proof {
        assert(all.take(all.len() as int) =~= all);
    }
    Ok(total)
}

} // verus!
