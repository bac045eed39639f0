//! The presence checker: read-only duplicate detection.
//!
//! For each regular file among a walk's entries, in traversal order, the
//! checker computes the file's content hash and reports how many
//! existing records share it: zero means not yet cataloged, one means
//! cataloged exactly once, more signals duplicate content elsewhere in
//! the catalog. Checking never creates, modifies or deletes a record —
//! it only ever reads the store.

use vstd::prelude::*;

use crate::record::FileEntry;
use crate::record::WalkEntry;
use crate::record::capped;
use crate::record::clone_string;
use crate::record::files_of;
use crate::record::hashed_total;
use crate::record::lemma_capped_chain;
use crate::record::lemma_walk_step;
use crate::record::sat_add;
use crate::record::FileRecord;
use crate::store::Catalog;
use crate::store::CatalogError;
use crate::store::count_hash_spec;

verus! {

/// One line of check output: how many records share the file's hash,
/// and the file's identity.
#[derive(Debug)]
pub struct CheckLine {
    pub count: u64,
    pub name: String,
    pub dir: String,
}

/// A correct line for one file against the given rows.
pub open spec fn line_ok(rows: Seq<FileRecord>, f: FileEntry, line: CheckLine) -> bool {
    &&& line.count as nat == count_hash_spec(rows, f.hash@)
    &&& line.name@ == f.name@
    &&& line.dir@ == f.dir@
}

/// Correct check output for a walk against the given rows: one line per
/// regular file, in traversal order.
pub open spec fn lines_ok(
    rows: Seq<FileRecord>,
    entries: Seq<WalkEntry>,
    lines: Seq<CheckLine>,
) -> bool {
    &&& lines.len() == files_of(entries).len()
    &&& forall|k: int|
        0 <= k < lines.len() ==> line_ok(rows, files_of(entries)[k], #[trigger] lines[k])
}

/// Check one walk: report, per regular file and in traversal order, how
/// many records share its content hash, together with the number of
/// content bytes hashed (saturating at `u64::MAX`). Never mutates the
/// store. A walk without regular files has nothing to look up and
/// always succeeds, with no lines and zero bytes; one holding a regular
/// file fails while the `files` table does not exist.
pub fn check_batch(cat: &Catalog, entries: &Vec<WalkEntry>) -> (r: Result<
    (Vec<CheckLine>, u64),
    CatalogError,
>)
    ensures
        match r {
            Ok(out) => lines_ok(cat.rows(), entries@, out.0@) && out.1 == capped(
                hashed_total(entries@),
            ),
            Err(e) => e matches CatalogError::Sql { .. },
        },
        (forall|i: int|
            0 <= i < entries@.len() ==> !(#[trigger] entries@[i] matches WalkEntry::File(_)))
            ==> r matches Ok(_),
        !cat.has_files() && (exists|i: int|
            0 <= i < entries@.len() && #[trigger] entries@[i] matches WalkEntry::File(_))
            ==> r matches Err(_),
{
    let mut lines: Vec<CheckLine> = Vec::new();
    let mut total: u64 = 0;
    let ghost all = entries@;
    proof {
        assert(files_of(all.take(0)) =~= Seq::<FileEntry>::empty());
    }
    for i in 0..entries.len()
        invariant
            all == entries@,
            lines_ok(cat.rows(), all.take(i as int), lines@),
            total == capped(hashed_total(all.take(i as int))),
            cat.has_files() || (forall|j: int|
                0 <= j < i ==> !(#[trigger] all[j] matches WalkEntry::File(_))),
    {
        let ghost prefix = all.take(i as int);
        proof {
            lemma_walk_step(all, i as int);
        }
        match &entries[i] {
            WalkEntry::File(f) => {
                let n = match cat.presence_count(f.hash.as_str()) {
                    Ok(n) => n,
                    Err(e) => {
                        assert(entries@[i as int] matches WalkEntry::File(_));
                        return Err(e);
                    },
                };
                let line = CheckLine {
                    count: n,
                    name: clone_string(&f.name),
                    dir: clone_string(&f.dir),
                };
                lines.push(line);
                proof {
                    lemma_capped_chain(hashed_total(prefix), f.hashed_bytes as nat);
                    assert(files_of(all.take(i as int + 1)) =~= files_of(prefix).push(*f));
                }
                total = sat_add(total, f.hashed_bytes);
            },
            _ => {
                proof {
                    assert(files_of(all.take(i as int + 1)) =~= files_of(prefix));
                }
            },
        }
    }
    proof {
        assert(all.take(all.len() as int) =~= all);
    }
    Ok((lines, total))
}

} // verus!
