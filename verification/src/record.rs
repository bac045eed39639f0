//! The data model: one record per cataloged regular file.
//!
//! A walker (outside this library) enumerates filesystem entries; each
//! regular file arrives as a [`FileEntry`] carrying its identity, its
//! metadata and the digest of its content, and becomes exactly one row of
//! the store. Directories and other non-regular entries never produce
//! rows.

use vstd::prelude::*;

use crate::hasher::blake3_hex;
use crate::hasher::HashRun;

verus! {

/// One regular file, as handed to the catalog: identity, metadata, and
/// the content digest together with the number of bytes hashed.
#[derive(Clone)]
pub struct FileEntry {
    /// The file's base name.
    pub name: String,
    /// The file's containing directory, verbatim as traversed.
    pub dir: String,
    /// Byte length, from filesystem metadata.
    pub size: u64,
    /// Creation time, rendered with local offset.
    pub ctime: String,
    /// Modification time, rendered with local offset.
    pub mtime: String,
    /// Access time, rendered with local offset.
    pub atime: String,
    /// Lowercase hex digest of the file's content.
    pub hash: String,
    /// Number of content bytes that were hashed.
    pub hashed_bytes: u64,
}

/// One filesystem entry as the walker yields it. Only regular files carry
/// data; the catalog skips the rest.
#[derive(Clone)]
pub enum WalkEntry {
    File(FileEntry),
    Dir,
    Other,
}

/// The mathematical view of one stored row.
pub struct FileRecord {
    pub name: Seq<char>,
    pub dir: Seq<char>,
    pub size: i64,
    pub ctime: Seq<char>,
    pub mtime: Seq<char>,
    pub atime: Seq<char>,
    pub hash: Seq<char>,
}

/// A size as it is stored: the store holds signed 64-bit integers, so a
/// length above `i64::MAX` wraps to its two's-complement value (the
/// truncation never panics).
pub open spec fn size_as_stored(n: u64) -> int {
    if n <= i64::MAX {
        n as int
    } else {
        n as int - 0x10000000000000000
    }
}

/// Truncate an unsigned size to the signed column the store offers.
pub fn store_size(n: u64) -> (r: i64)
    ensures
        r as int == size_as_stored(n),
{
    if n <= i64::MAX as u64 {
        n as i64
    } else {
        -((u64::MAX - n) as i64) - 1
    }
}

impl FileEntry {
    /// The row this entry becomes.
    pub open spec fn record(self) -> FileRecord {
        FileRecord {
            name: self.name@,
            dir: self.dir@,
            size: size_as_stored(self.size) as i64,
            ctime: self.ctime@,
            mtime: self.mtime@,
            atime: self.atime@,
            hash: self.hash@,
        }
    }

    /// Build the entry for one file whose content was absorbed by `run`:
    /// the entry's digest is the digest of exactly those bytes.
    pub fn from_hash_run(
        run: &HashRun,
        name: String,
        dir: String,
        size: u64,
        ctime: String,
        mtime: String,
        atime: String,
    ) -> (e: FileEntry)
        ensures
            e.hash@ == blake3_hex(run.bytes()),
            e.hashed_bytes == run.total(),
            e.name == name,
            e.dir == dir,
            e.size == size,
            e.ctime == ctime,
            e.mtime == mtime,
            e.atime == atime,
    {
        let hash = run.digest_hex();
        let hashed_bytes = run.total_bytes();
        FileEntry { name, dir, size, ctime, mtime, atime, hash, hashed_bytes }
    }
}

/// The regular files among a walk's entries, in traversal order.
pub open spec fn files_of(entries: Seq<WalkEntry>) -> Seq<FileEntry>
    decreases entries.len(),
{
    if entries.len() == 0 {
        Seq::empty()
    } else {
        files_of(entries.drop_last()) + (match entries.last() {
            WalkEntry::File(f) => seq![f],
            _ => Seq::empty(),
        })
    }
}

/// The rows that cataloging a walk's entries appends, in traversal order.
pub open spec fn records_of(entries: Seq<WalkEntry>) -> Seq<FileRecord> {
    files_of(entries).map_values(|f: FileEntry| f.record())
}

/// The number of bytes hashed over a walk's regular files.
pub open spec fn hashed_total(entries: Seq<WalkEntry>) -> nat
    decreases entries.len(),
{
    if entries.len() == 0 {
        0
    } else {
        hashed_total(entries.drop_last()) + (match entries.last() {
            WalkEntry::File(f) => f.hashed_bytes as nat,
            _ => 0,
        })
    }
}

/// A byte total as reported: totals saturate at `u64::MAX` instead of
/// overflowing.
pub open spec fn capped(n: nat) -> u64 {
    if n > u64::MAX {
        u64::MAX
    } else {
        n as u64
    }
}

/// Saturating addition for byte totals.
pub fn sat_add(a: u64, b: u64) -> (r: u64)
    ensures
        r == capped(a as nat + b as nat),
{
    if a > u64::MAX - b {
        u64::MAX
    } else {
        a + b
    }
}

/// Saturation composes: capping either summand before the addition gives
/// the same result as capping the grand total.
pub proof fn lemma_capped_chain(a: nat, b: nat)
    ensures
        capped(capped(a) as nat + b) == capped(a + b),
        capped(a + capped(b) as nat) == capped(a + b),
{
}

/// A copy of a string, character for character.
pub fn clone_string(s: &String) -> (r: String)
    ensures
        r@ == s@,
{
    String::from_str(s.as_str())
}

/// Stepping a walk by one entry extends its files, records and byte
/// total by that entry's contribution.
pub proof fn lemma_walk_step(entries: Seq<WalkEntry>, i: int)
    requires
        0 <= i < entries.len(),
    ensures
        files_of(entries.take(i + 1)) == files_of(entries.take(i)) + (match entries[i] {
            WalkEntry::File(f) => seq![f],
            _ => Seq::<FileEntry>::empty(),
        }),
        hashed_total(entries.take(i + 1)) == hashed_total(entries.take(i)) + (match entries[i] {
            WalkEntry::File(f) => f.hashed_bytes as nat,
            _ => 0,
        }),
{
    assert(entries.take(i + 1).drop_last() =~= entries.take(i));
    assert(entries.take(i + 1).last() == entries[i]);
    assert(files_of(entries.take(i + 1)) =~= files_of(entries.take(i)) + (match entries[i] {
        WalkEntry::File(f) => seq![f],
        _ => Seq::<FileEntry>::empty(),
    }));
}

} // verus!
