//! Catalog scenarios against an in-memory store.

use havit::hasher::HashRun;
use havit::record::FileEntry;
use havit::record::WalkEntry;
use havit::record::store_size;
use havit::run::run_catalog;
use havit::store::Catalog;
use havit::store::CatalogError;
use havit::writer::insert_record;

fn file_entry(name: &str, dir: &str, content: &[u8]) -> FileEntry {
    let mut run = HashRun::new();
    run.update(content);
    FileEntry::from_hash_run(
        &run,
        name.to_string(),
        dir.to_string(),
        content.len() as u64,
        "2024-05-01T12:00:00+02:00".to_string(),
        "2024-05-02T12:00:00+02:00".to_string(),
        "2024-05-03T12:00:00+02:00".to_string(),
    )
}

fn file(name: &str, dir: &str, content: &[u8]) -> WalkEntry {
    WalkEntry::File(file_entry(name, dir, content))
}

#[test]
fn test_missing_database() {
    let r = Catalog::open("nodir/noexisty");
    match r {
        Err(CatalogError::Open { message, .. }) => {
            assert_eq!(message, "unable to open database file: nodir/noexisty");
        },
        other => panic!("expected an open error, got {:?}", other.map(|_| ())),
    }
}

#[test]
fn test_no_regular_files_always_succeeds() {
    // A walk without regular files has nothing to persist or look up, so
    // both operations succeed even against a store that was never
    // migrated.
    let mut cat = Catalog::open(":memory:").unwrap();
    let walk = vec![WalkEntry::Dir, WalkEntry::Other, WalkEntry::Dir];
    let total = havit::writer::add_batch(&mut cat, &walk).unwrap();
    assert_eq!(total, 0);
    let (lines, checked) = havit::checker::check_batch(&cat, &walk).unwrap();
    assert!(lines.is_empty());
    assert_eq!(checked, 0);
}

#[test]
fn test_add_twice_identical_hash() {
    let mut cat = Catalog::open(":memory:").unwrap();
    let e = file_entry("a.txt", "some/dir", b"contents");
    let adds = vec![vec![WalkEntry::File(e.clone())]];
    let rep1 = run_catalog(&mut cat, false, &adds, &vec![]).unwrap();
    assert_eq!(rep1.migrations_applied, 1);
    let rep2 = run_catalog(&mut cat, false, &adds, &vec![]).unwrap();
    assert_eq!(rep2.migrations_applied, 0);
    assert_eq!(cat.row_count().unwrap(), 2);
    assert_eq!(cat.presence_count(&e.hash).unwrap(), 2);
}

#[test]
fn test_unique_index_rejects_second_run() {
    let mut cat = Catalog::open(":memory:").unwrap();
    let adds = vec![vec![file("a.txt", "some/dir", b"contents")]];
    let rep1 = run_catalog(&mut cat, true, &adds, &vec![]).unwrap();
    assert_eq!(rep1.migrations_applied, 2);
    let r2 = run_catalog(&mut cat, true, &adds, &vec![]);
    assert!(matches!(r2, Err(CatalogError::Duplicate { .. })));
    assert_eq!(cat.row_count().unwrap(), 1);
}

#[test]
fn test_check_mutates_nothing() {
    let mut cat = Catalog::open(":memory:").unwrap();
    let adds = vec![vec![file("a.txt", "d", b"one"), file("b.txt", "d", b"two")]];
    run_catalog(&mut cat, false, &adds, &vec![]).unwrap();
    let before = cat.row_count().unwrap();
    let checks = vec![vec![file("a.txt", "d", b"one"), file("c.txt", "d", b"three")]];
    let rep = run_catalog(&mut cat, false, &vec![], &checks).unwrap();
    assert_eq!(rep.checks.len(), 1);
    assert_eq!(rep.checks[0].len(), 2);
    assert_eq!(rep.checks[0][0].count, 1);
    assert_eq!(rep.checks[0][1].count, 0);
    assert_eq!(cat.row_count().unwrap(), before);
}

#[test]
fn test_check_batch_reads_only() {
    let mut cat = Catalog::open(":memory:").unwrap();
    let adds = vec![vec![file("a.txt", "d", b"payload")]];
    run_catalog(&mut cat, false, &adds, &vec![]).unwrap();
    let before = cat.row_count().unwrap();
    let walk = vec![file("a.txt", "d", b"payload"), WalkEntry::Dir, file("x", "d", b"new")];
    let (lines, total) = havit::checker::check_batch(&cat, &walk).unwrap();
    assert_eq!(lines.len(), 2);
    assert_eq!(lines[0].count, 1);
    assert_eq!(lines[1].count, 0);
    assert_eq!(total, 7 + 3);
    assert_eq!(cat.row_count().unwrap(), before);
}

#[test]
fn test_one_record_per_regular_file() {
    let mut cat = Catalog::open(":memory:").unwrap();
    // A root with two regular files and two subdirectories holding two
    // more: directories and other entries produce no records.
    let walk = vec![
        WalkEntry::Dir,
        file("a.txt", "root", b"aa"),
        file("b.txt", "root", b"bbb"),
        WalkEntry::Dir,
        file("c.txt", "root/sub1", b"cccc"),
        WalkEntry::Other,
        file("d.txt", "root/sub2", b"ddddd"),
    ];
    let rep = run_catalog(&mut cat, false, &vec![walk], &vec![]).unwrap();
    assert_eq!(cat.row_count().unwrap(), 4);
    assert_eq!(rep.total, 2 + 3 + 4 + 5);
}

#[test]
fn test_migration_idempotent() {
    let mut cat = Catalog::open(":memory:").unwrap();
    let rep1 = run_catalog(&mut cat, true, &vec![], &vec![]).unwrap();
    assert_eq!(rep1.migrations_applied, 2);
    let rep2 = run_catalog(&mut cat, true, &vec![], &vec![]).unwrap();
    assert_eq!(rep2.migrations_applied, 0);
    let rep3 = run_catalog(&mut cat, true, &vec![], &vec![]).unwrap();
    assert_eq!(rep3.migrations_applied, 0);
    assert_eq!(cat.row_count().unwrap(), 0);
    // Applied versions come back in ascending order.
    assert_eq!(cat.applied_versions().unwrap(), vec![1, 2]);
}

#[test]
fn test_unique_index_as_second_step() {
    let mut cat = Catalog::open(":memory:").unwrap();
    let rep1 = run_catalog(&mut cat, false, &vec![], &vec![]).unwrap();
    assert_eq!(rep1.migrations_applied, 1);
    let rep2 = run_catalog(&mut cat, true, &vec![], &vec![]).unwrap();
    assert_eq!(rep2.migrations_applied, 1);
    // A store already holding the index is never an error, even when the
    // configuration leaves the index out of the target schema.
    let rep3 = run_catalog(&mut cat, false, &vec![], &vec![]).unwrap();
    assert_eq!(rep3.migrations_applied, 0);
}

#[test]
fn test_index_migration_fails_over_existing_duplicates() {
    let mut cat = Catalog::open(":memory:").unwrap();
    let adds = vec![vec![file("a.txt", "d", b"one")]];
    run_catalog(&mut cat, false, &adds, &vec![]).unwrap();
    run_catalog(&mut cat, false, &adds, &vec![]).unwrap();
    assert_eq!(cat.row_count().unwrap(), 2);
    // The unique index cannot be built over the duplicate rows; the
    // migration fails and nothing of the invocation's work happens.
    let more = vec![vec![file("b.txt", "d", b"two")]];
    let r = run_catalog(&mut cat, true, &more, &vec![]);
    match r {
        Err(CatalogError::Migration { version, .. }) => assert_eq!(version, 2),
        other => panic!("expected a migration error, got {:?}", other),
    }
    assert_eq!(cat.row_count().unwrap(), 2);
    // The store stays at its well-defined prior version: the initial
    // migration is still recorded, so a plain run applies nothing.
    let rep = run_catalog(&mut cat, false, &vec![], &vec![]).unwrap();
    assert_eq!(rep.migrations_applied, 0);
}

#[test]
fn test_interrupted_run_commits_nothing() {
    let mut cat = Catalog::open(":memory:").unwrap();
    let first = vec![vec![file("a.txt", "d", b"contents")]];
    run_catalog(&mut cat, true, &first, &vec![]).unwrap();
    assert_eq!(cat.row_count().unwrap(), 1);
    // The second batch fails on its middle file (a duplicate under the
    // unique index); the whole batch rolls back, so the records before
    // the failure are gone too.
    let g = file_entry("g.txt", "d", b"gggg");
    let batch = vec![vec![
        WalkEntry::File(g.clone()),
        file("a.txt", "d", b"contents"),
        file("h.txt", "d", b"hhhh"),
    ]];
    let r = run_catalog(&mut cat, true, &batch, &vec![]);
    assert!(matches!(r, Err(CatalogError::Duplicate { .. })));
    assert_eq!(cat.row_count().unwrap(), 1);
    assert_eq!(cat.presence_count(&g.hash).unwrap(), 0);
}

#[test]
fn test_empty_directory() {
    let mut cat = Catalog::open(":memory:").unwrap();
    let rep = run_catalog(&mut cat, false, &vec![vec![]], &vec![]).unwrap();
    assert_eq!(rep.total, 0);
    assert_eq!(cat.row_count().unwrap(), 0);
}

#[test]
fn test_zero_byte_file() {
    let mut cat = Catalog::open(":memory:").unwrap();
    let e = file_entry("empty.txt", "d", b"");
    assert_eq!(e.size, 0);
    assert_eq!(e.hash, blake3::hash(b"").to_hex().as_str());
    let rep =
        run_catalog(&mut cat, false, &vec![vec![WalkEntry::File(e.clone())]], &vec![])
            .unwrap();
    assert_eq!(rep.total, 0);
    assert_eq!(cat.row_count().unwrap(), 1);
    assert_eq!(cat.presence_count(&e.hash).unwrap(), 1);
}

#[test]
fn test_duplicate_content_across_directories() {
    let mut cat = Catalog::open(":memory:").unwrap();
    let adds = vec![vec![
        file("a.txt", "dir/one", b"shared bytes"),
        file("b.txt", "dir/two", b"shared bytes"),
    ]];
    // The checks run in the same invocation and see the just-inserted
    // records.
    let checks = vec![vec![file("a.txt", "dir/one", b"shared bytes")]];
    let rep = run_catalog(&mut cat, false, &adds, &checks).unwrap();
    assert_eq!(cat.row_count().unwrap(), 2);
    assert_eq!(rep.checks[0][0].count, 2);
    assert_eq!(rep.checks[0][0].name, "a.txt");
    assert_eq!(rep.checks[0][0].dir, "dir/one");
    assert_eq!(rep.total, 12 + 12 + 12);
}

#[test]
fn test_insert_without_migration_names_missing_table() {
    let mut cat = Catalog::open(":memory:").unwrap();
    let e = file_entry("a.txt", "d", b"x");
    let r = insert_record(&mut cat, &e);
    match r {
        Err(CatalogError::MissingTable { name, dir }) => {
            assert_eq!(name, "a.txt");
            assert_eq!(dir, "d");
        },
        other => panic!("expected a missing-table error, got {:?}", other),
    }
}

#[test]
fn test_query_without_migration_fails() {
    let cat = Catalog::open(":memory:").unwrap();
    assert!(matches!(cat.row_count(), Err(CatalogError::Sql { .. })));
    assert!(matches!(cat.presence_count("00"), Err(CatalogError::Sql { .. })));
}

#[test]
fn test_size_truncates_without_panic() {
    assert_eq!(store_size(0), 0);
    assert_eq!(store_size(5), 5);
    assert_eq!(store_size(i64::MAX as u64), i64::MAX);
    assert_eq!(store_size(i64::MAX as u64 + 1), i64::MIN);
    assert_eq!(store_size(u64::MAX), -1);
}
