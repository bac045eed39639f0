//! The library's laws, stated and proved over the same spec functions
//! its contracts use.

use vstd::prelude::*;

use crate::hasher::blake3_hex;
use crate::hasher::chunk_bytes;
use crate::migrator::target_versions;
use crate::record::FileEntry;
use crate::record::FileRecord;
use crate::record::WalkEntry;
use crate::record::files_of;
use crate::record::hashed_total;
use crate::record::records_of;
use crate::store::count_hash_spec;

verus! {

/// A file's digest depends on its content alone: two hashing runs over
/// equal byte sequences yield equal digests, whatever name, path or
/// timestamps the files carry.
pub proof fn lemma_hash_depends_on_content_alone(b1: Seq<u8>, b2: Seq<u8>)
    requires
        b1 == b2,
    ensures
        blake3_hex(b1) == blake3_hex(b2),
{
}

/// The read-buffer size does not matter: two chunkings whose bytes
/// concatenate to the same sequence hash to the same digest.
pub proof fn lemma_chunking_irrelevant(c1: Seq<Vec<u8>>, c2: Seq<Vec<u8>>)
    requires
        chunk_bytes(c1) == chunk_bytes(c2),
    ensures
        blake3_hex(chunk_bytes(c1)) == blake3_hex(chunk_bytes(c2)),
{
}

/// Two files with byte-identical content are recorded with equal hash
/// columns, whatever their names, directories, sizes or timestamps.
pub proof fn lemma_equal_content_equal_record_hash(
    f1: FileEntry,
    f2: FileEntry,
    b1: Seq<u8>,
    b2: Seq<u8>,
)
    requires
        f1.hash@ == blake3_hex(b1),
        f2.hash@ == blake3_hex(b2),
        b1 == b2,
    ensures
        f1.record().hash == f2.record().hash,
{
}

/// Cataloging the same file twice, in two invocations and with no
/// unique constraint, appends two records with identical hash.
pub proof fn lemma_recatalog_identical_hash(rows0: Seq<FileRecord>, f: FileEntry)
    ensures
        ({
            let once = seq![WalkEntry::File(f)];
            let twice = rows0 + records_of(once) + records_of(once);
            &&& twice.len() == rows0.len() + 2
            &&& twice[rows0.len() as int].hash == twice[rows0.len() as int + 1].hash
        }),
{
    let once = seq![WalkEntry::File(f)];
    assert(once.drop_last() =~= Seq::<WalkEntry>::empty());
    assert(files_of(once.drop_last()) =~= Seq::<FileEntry>::empty());
    assert(once.last() == WalkEntry::File(f));
    assert(files_of(once) =~= seq![f]);
    assert(records_of(once) =~= seq![f.record()]);
}

/// A walk's files, records and byte total split over concatenation: a
/// root holding some entries followed by a subdirectory's entries
/// contributes exactly the sum of the two parts.
pub proof fn lemma_walk_concat(a: Seq<WalkEntry>, b: Seq<WalkEntry>)
    ensures
        files_of(a + b) == files_of(a) + files_of(b),
        records_of(a + b) == records_of(a) + records_of(b),
        hashed_total(a + b) == hashed_total(a) + hashed_total(b),
    decreases b.len(),
{
    if b.len() == 0 {
        assert(a + b =~= a);
        assert(files_of(a) + files_of(b) =~= files_of(a));
        assert(records_of(a) + records_of(b) =~= records_of(a));
    } else {
        lemma_walk_concat(a, b.drop_last());
        assert((a + b).drop_last() =~= a + b.drop_last());
        assert((a + b).last() == b.last());
        assert(files_of(a + b) =~= files_of(a) + files_of(b));
        assert(records_of(a + b) =~= records_of(a) + records_of(b));
    }
}

/// Directories and other non-regular entries produce no records and no
/// hashed bytes: a walk of N regular files appends exactly N records,
/// whatever else stands between them.
pub proof fn lemma_non_files_produce_nothing(entries: Seq<WalkEntry>)
    requires
        forall|i: int| 0 <= i < entries.len() ==> !(#[trigger] entries[i] matches WalkEntry::File(_)),
    ensures
        records_of(entries) == Seq::<FileRecord>::empty(),
        hashed_total(entries) == 0,
    decreases entries.len(),
{
    if entries.len() == 0 {
        assert(files_of(entries) =~= Seq::<FileEntry>::empty());
        assert(records_of(entries) =~= Seq::<FileRecord>::empty());
    } else {
        assert(entries[entries.len() - 1] == entries.last());
        lemma_non_files_produce_nothing(entries.drop_last());
        assert(files_of(entries) =~= files_of(entries.drop_last()));
        assert(records_of(entries) =~= Seq::<FileRecord>::empty());
    }
}

/// One record per regular file: a walk appends exactly as many records
/// as it holds regular files.
pub proof fn lemma_one_record_per_file(entries: Seq<WalkEntry>)
    ensures
        records_of(entries).len() == files_of(entries).len(),
{
}

/// Appending one record changes the count of a hash by one exactly
/// when the record carries it.
pub proof fn lemma_count_hash_push(rows: Seq<FileRecord>, rec: FileRecord, hash: Seq<char>)
    ensures
        count_hash_spec(rows.push(rec), hash) == count_hash_spec(rows, hash) + (if rec.hash == hash
            {
                1int
            } else {
                0int
            }),
{
    reveal(Seq::filter);
    assert(rows.push(rec).drop_last() =~= rows);
    assert(rows.push(rec).last() == rec);
}

/// Two files with byte-identical content, cataloged into a store that
/// held no record of that content, are both counted: a presence check
/// for either file's hash then reports exactly two matches, whatever
/// their names, directories or timestamps.
pub proof fn lemma_duplicate_content_counted_twice(
    rows0: Seq<FileRecord>,
    f1: FileEntry,
    f2: FileEntry,
    content: Seq<u8>,
)
    requires
        f1.hash@ == blake3_hex(content),
        f2.hash@ == blake3_hex(content),
        count_hash_spec(rows0, blake3_hex(content)) == 0,
    ensures
        count_hash_spec(rows0.push(f1.record()).push(f2.record()), f1.record().hash) == 2,
        count_hash_spec(rows0.push(f1.record()).push(f2.record()), f2.record().hash) == 2,
{
    lemma_count_hash_push(rows0, f1.record(), blake3_hex(content));
    lemma_count_hash_push(rows0.push(f1.record()), f2.record(), blake3_hex(content));
}

/// Migration is idempotent at the orchestration level: one successful
/// run leaves the store at the target schema, and a second run finds
/// every target version applied, applies nothing, and leaves the schema
/// state as it was.
pub proof fn lemma_migration_idempotent(applied: Set<u64>, unique_index: bool)
    ensures
        target_versions(unique_index).subset_of(
            applied.union(target_versions(unique_index)),
        ),
        applied.union(target_versions(unique_index)).union(target_versions(unique_index))
            == applied.union(target_versions(unique_index)),
{
    assert(applied.union(target_versions(unique_index)).union(target_versions(unique_index))
        =~= applied.union(target_versions(unique_index)));
}

} // verus!
