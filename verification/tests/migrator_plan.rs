//! Migration planning: what gets applied, and when the store is newer
//! than the program.

use havit::migrator::plan_migrations;
use havit::store::CatalogError;

#[test]
fn test_fresh_store_needs_initial_migration() {
    let pending = plan_migrations(&vec![], false).unwrap();
    assert_eq!(pending, vec![1]);
}

#[test]
fn test_fresh_store_with_unique_index_needs_both() {
    let pending = plan_migrations(&vec![], true).unwrap();
    assert_eq!(pending, vec![1, 2]);
}

#[test]
fn test_migrated_store_needs_nothing() {
    let pending = plan_migrations(&vec![1], false).unwrap();
    assert_eq!(pending, Vec::<u64>::new());
    let pending = plan_migrations(&vec![1, 2], true).unwrap();
    assert_eq!(pending, Vec::<u64>::new());
}

#[test]
fn test_index_only_pending() {
    let pending = plan_migrations(&vec![1], true).unwrap();
    assert_eq!(pending, vec![2]);
}

#[test]
fn test_store_with_index_and_plain_target() {
    // A store that already has the index, run with a configuration that
    // leaves the index out: nothing to apply, and no error.
    let pending = plan_migrations(&vec![1, 2], false).unwrap();
    assert_eq!(pending, Vec::<u64>::new());
}

#[test]
fn test_newer_store_is_an_error() {
    let r = plan_migrations(&vec![1, 2, 99], true);
    match r {
        Err(CatalogError::StoreNewer { version }) => assert_eq!(version, 99),
        other => panic!("expected a store-newer error, got {:?}", other),
    }
}

#[test]
fn test_wrapped_negative_version_is_newer() {
    // A negative version in the history reads back as its unsigned
    // 64-bit image, which no program migration ever records: the
    // migrator rejects it as a newer store rather than proceeding.
    let image = u64::MAX; // the image of a stored -1
    let r = plan_migrations(&vec![1, image], false);
    match r {
        Err(CatalogError::StoreNewer { version }) => assert_eq!(version, image),
        other => panic!("expected a store-newer error, got {:?}", other),
    }
}
