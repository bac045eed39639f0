//! The schema migrator.
//!
//! The store records which migration versions it has applied; on every
//! invocation the migrator computes the versions still missing from the
//! target schema and applies each, in ascending order, atomically
//! together with its history record. Applying an already-applied
//! migration is a no-op, and a store recording a version this program
//! does not know is reported as [`CatalogError::StoreNewer`] rather than
//! touched: running against a newer-than-expected schema is unsafe.
//!
//! Whether the unique `(name, path)` index belongs to the target schema
//! is a configuration choice (see
//! [`crate::migrations::v2_add_unique_index`]); a store that already has
//! it is never an error, even when the configuration leaves it out.

use vstd::prelude::*;

use crate::migrations::v1_initial_migration;
use crate::migrations::v2_add_unique_index;
use crate::store::Catalog;
use crate::store::CatalogError;
use crate::store::sql_error;

verus! {

/// Every migration version this program knows.
pub open spec fn known_versions() -> Set<u64> {
    set![1u64, 2u64]
}

/// The versions the target schema consists of, by configuration.
pub open spec fn target_versions(unique_index: bool) -> Set<u64> {
    if unique_index {
        set![1u64, 2u64]
    } else {
        set![1u64]
    }
}

/// The versions a store with the given applied set still needs, in
/// ascending order.
pub open spec fn pending_versions(applied: Seq<u64>, unique_index: bool) -> Seq<u64> {
    (if applied.contains(1u64) {
        Seq::<u64>::empty()
    } else {
        seq![1u64]
    }) + (if unique_index && !applied.contains(2u64) {
        seq![2u64]
    } else {
        Seq::<u64>::empty()
    })
}

/// Whether a version list holds the given version.
fn list_contains(versions: &Vec<u64>, v: u64) -> (b: bool)
    ensures
        b == versions@.contains(v),
{
    for i in 0..versions.len()
        invariant
            forall|j: int| 0 <= j < i ==> versions@[j] != v,
    {
        if versions[i] == v {
            return true;
        }
    }
    false
}

/// Decide what to apply: given the versions the store records as applied,
/// either the pending versions of the target schema, in ascending order,
/// or — exactly when the store records a version this program does not
/// know — the store-is-newer error naming such a version.
pub fn plan_migrations(applied: &Vec<u64>, unique_index: bool) -> (r: Result<
    Vec<u64>,
    CatalogError,
>)
    ensures
        match r {
            Ok(pending) => (forall|x: u64|
                applied@.contains(x) ==> known_versions().contains(x)) && pending@
                == pending_versions(applied@, unique_index),
            Err(e) => match e {
                CatalogError::StoreNewer { version } => applied@.contains(version)
                    && !known_versions().contains(version),
                _ => false,
            },
        },
{
    for i in 0..applied.len()
        invariant
            forall|j: int| 0 <= j < i ==> known_versions().contains(applied@[j]),
    {
        let v = applied[i];
        if !(v == 1 || v == 2) {
            assert(!known_versions().contains(v));
            return Err(CatalogError::StoreNewer { version: v });
        }
    }
    let mut pending: Vec<u64> = Vec::new();
    if !list_contains(applied, 1) {
        pending.push(1);
    }
    if unique_index && !list_contains(applied, 2) {
        pending.push(2);
    }
    assert(pending@ =~= pending_versions(applied@, unique_index));
    Ok(pending)
}

/// Bring the store to the target schema: apply, in ascending order, each
/// target migration the store does not record yet, each atomically with
/// its history record. Returns how many migrations were newly applied —
/// zero exactly when the store was already at the target schema, so a
/// second run right after a successful one applies nothing. Success also
/// vouches that every version the store had recorded was known to this
/// program: a newer store never slips through. Never touches the rows.
pub fn migrate(cat: &mut Catalog, unique_index: bool) -> (r: Result<u64, CatalogError>)
    requires
        !old(cat).in_tx(),
    ensures
        final(cat).rows() == old(cat).rows(),
        final(cat).base() == old(cat).base(),
        !final(cat).in_tx(),
        forall|x: u64| old(cat).applied().contains(x) ==> final(cat).applied().contains(x),
        forall|x: u64|
            final(cat).applied().contains(x) ==> old(cat).applied().contains(x) || target_versions(
                unique_index,
            ).contains(x),
        match r {
            Ok(k) => final(cat).applied() == old(cat).applied().union(
                target_versions(unique_index),
            ) && (k == 0 <==> target_versions(unique_index).subset_of(old(cat).applied()))
                && k as int == (if old(cat).applied().contains(1u64) { 0int } else { 1int }) + (
            if unique_index && !old(cat).applied().contains(2u64) { 1int } else { 0int })
                && (forall|x: u64| old(cat).applied().contains(x) ==> known_versions().contains(x))
                && (!old(cat).applied().contains(1u64) ==> final(cat).has_files())
                && (unique_index && !old(cat).applied().contains(2u64)
                    ==> final(cat).has_unique()),
            Err(e) => match e {
                CatalogError::History { .. } => final(cat).applied() == old(cat).applied(),
                CatalogError::StoreNewer { version } => old(cat).applied().contains(version)
                    && !known_versions().contains(version),
                CatalogError::Migration { version, .. } => target_versions(
                    unique_index,
                ).contains(version),
                _ => false,
            },
        },
{
    match cat.ensure_history() {
        Ok(_) => (),
        Err(e) => {
            let (code, message) = sql_error(&e);
            return Err(CatalogError::History { code, message });
        },
    }
    let applied = match cat.read_applied() {
        Ok(v) => v,
        Err(e) => {
            let (code, message) = sql_error(&e);
            return Err(CatalogError::History { code, message });
        },
    };
    let pending = match plan_migrations(&applied, unique_index) {
        Ok(p) => p,
        Err(e) => {
            return Err(e);
        },
    };
    let ghost applied0 = cat.applied();
    let ghost pend = pending@;
    let mut i: usize = 0;
    while i < pending.len()
        invariant
            0 <= i <= pend.len(),
            applied0 == old(cat).applied(),
            pend == pending@,
            pend == pending_versions(applied@, unique_index),
            forall|x: u64| applied@.contains(x) <==> applied0.contains(x),
            !cat.in_tx(),
            cat.rows() == old(cat).rows(),
            cat.base() == old(cat).base(),
            forall|x: u64| #![trigger applied0.contains(x)]
                cat.applied().contains(x) <==> applied0.contains(x) || pend.take(
                    i as int,
                ).contains(x),
            !applied0.contains(1u64) && pend.take(i as int).contains(1u64) ==> cat.has_files(),
            !applied0.contains(2u64) && pend.take(i as int).contains(2u64) ==> cat.has_unique(),
        decreases pend.len() - i,
    {
        let v = pending[i];
        proof {
            assert(pend.contains(pend[i as int]));
            lemma_pending_characterisation(applied@, unique_index, v);
        }
        let ghost before = cat.applied();
        let ghost before_hf = cat.has_files();
        let ghost before_hu = cat.has_unique();
        proof {
            assert forall|x: u64| #![trigger before.contains(x)]
                before.contains(x) <==> applied0.contains(x) || pend.take(i as int).contains(x) by {
                assert(cat.applied().contains(x) <==> applied0.contains(x) || pend.take(
                    i as int,
                ).contains(x));
            }
            assert(!applied0.contains(1u64) && pend.take(i as int).contains(1u64) ==> before_hf);
            assert(!applied0.contains(2u64) && pend.take(i as int).contains(2u64) ==> before_hu);
        }
        let script_result = if v == 1 {
            let sql = v1_initial_migration::migration();
            cat.apply_script(1, "V1__initial_migration", sql.as_str())
        } else {
            assert(v == 2);
            let sql = v2_add_unique_index::migration();
            cat.apply_script(2, "V2__add_unique_index", sql.as_str())
        };
        match script_result {
            Ok(_) => {
                proof {
                    lemma_take_step(pend, i as int);
                    assert forall|x: u64|
                        cat.applied().contains(x) <==> applied0.contains(x) || pend.take(
                            i as int + 1,
                        ).contains(x) by {
                        assert(cat.applied().contains(x) <==> before.contains(x) || x == v);
                        assert(before.contains(x) <==> applied0.contains(x) || pend.take(
                            i as int,
                        ).contains(x));
                    }
                    assert(!applied0.contains(1u64) && pend.take(i as int + 1).contains(1u64)
                        ==> cat.has_files()) by {
                        if pend.take(i as int + 1).contains(1u64) && !pend.take(
                            i as int,
                        ).contains(1u64) {
                            assert(pend[i as int] == 1u64);
                        }
                    }
                    assert(!applied0.contains(2u64) && pend.take(i as int + 1).contains(2u64)
                        ==> cat.has_unique()) by {
                        if pend.take(i as int + 1).contains(2u64) && !pend.take(
                            i as int,
                        ).contains(2u64) {
                            assert(pend[i as int] == 2u64);
                        }
                    }
                }
            },
            Err(e) => {
                proof {
                    lemma_take_contains(pend, i as int);
                    assert forall|x: u64|
                        cat.applied().contains(x) implies applied0.contains(x) || target_versions(
                        unique_index,
                    ).contains(x) by {
                        assert(cat.applied().contains(x) <==> before.contains(x));
                        assert(before.contains(x) <==> applied0.contains(x) || pend.take(
                            i as int,
                        ).contains(x));
                        if pend.take(i as int).contains(x) {
                            lemma_pending_characterisation(applied@, unique_index, x);
                        }
                    }
                    assert forall|x: u64|
                        applied0.contains(x) implies cat.applied().contains(x) by {
                        assert(before.contains(x) <==> applied0.contains(x) || pend.take(
                            i as int,
                        ).contains(x));
                    }
                }
                let (code, message) = sql_error(&e);
                return Err(CatalogError::Migration { version: v, code, message });
            },
        }
        i = i + 1;
    }
    proof {
        assert forall|x: u64|
            old(cat).applied().contains(x) implies known_versions().contains(x) by {
            assert(applied@.contains(x));
        }
        assert(pend.take(pend.len() as int) =~= pend);
        assert(cat.applied() =~= applied0.union(target_versions(unique_index))) by {
            assert forall|x: u64|
                cat.applied().contains(x) <==> applied0.union(
                    target_versions(unique_index),
                ).contains(x) by {
                lemma_pending_characterisation(applied@, unique_index, x);
            }
        }
        assert(pend.len() as int == (if applied@.contains(1u64) { 0int } else { 1int }) + (
        if unique_index && !applied@.contains(2u64) { 1int } else { 0int }));
        if !applied0.contains(1u64) {
            lemma_pending_characterisation(applied@, unique_index, 1u64);
            assert(pend.contains(1u64));
            assert(cat.has_files());
        }
        if unique_index && !applied0.contains(2u64) {
            lemma_pending_characterisation(applied@, unique_index, 2u64);
            assert(pend.contains(2u64));
            assert(cat.has_unique());
        }
        if pend.len() == 0 {
            assert forall|x: u64|
                target_versions(unique_index).contains(x) implies applied0.contains(x) by {
                lemma_pending_characterisation(applied@, unique_index, x);
            }
        } else {
            let w = pend[0];
            lemma_pending_characterisation(applied@, unique_index, w);
            assert(pend.contains(w));
            assert(!applied0.contains(w) && target_versions(unique_index).contains(w));
        }
    }
    Ok(pending.len() as u64)
}

/// Every element of a prefix is an element of the whole.
proof fn lemma_take_contains(s: Seq<u64>, i: int)
    requires
        0 <= i <= s.len(),
    ensures
        forall|x: u64| s.take(i).contains(x) ==> s.contains(x),
{
    assert forall|x: u64| s.take(i).contains(x) implies s.contains(x) by {
        let j = choose|j: int| 0 <= j < i && s.take(i)[j] == x;
        assert(s[j] == x);
    }
}

/// Extending a prefix by one element extends what it holds by exactly
/// that element.
proof fn lemma_take_step(s: Seq<u64>, i: int)
    requires
        0 <= i < s.len(),
    ensures
        forall|x: u64| s.take(i + 1).contains(x) <==> s.take(i).contains(x) || x == s[i],
{
    assert forall|x: u64| s.take(i + 1).contains(x) implies s.take(i).contains(x) || x == s[i] by {
        let j = choose|j: int| 0 <= j < i + 1 && #[trigger] s.take(i + 1)[j] == x;
        if j < i {
            assert(s.take(i)[j] == x);
        }
    }
    assert forall|x: u64| s.take(i).contains(x) || x == s[i] implies s.take(i + 1).contains(x) by {
        if s.take(i).contains(x) {
            let j = choose|j: int| 0 <= j < i && s.take(i)[j] == x;
            assert(s.take(i + 1)[j] == x);
        } else {
            assert(s.take(i + 1)[i] == x);
        }
    }
}

/// What the pending list holds: exactly the target versions the applied
/// list misses.
proof fn lemma_pending_characterisation(applied: Seq<u64>, unique_index: bool, x: u64)
    ensures
        pending_versions(applied, unique_index).contains(x) <==> target_versions(
            unique_index,
        ).contains(x) && !applied.contains(x),
{
    let first: Seq<u64> = if applied.contains(1u64) {
        Seq::<u64>::empty()
    } else {
        seq![1u64]
    };
    let second: Seq<u64> = if unique_index && !applied.contains(2u64) {
        seq![2u64]
    } else {
        Seq::<u64>::empty()
    };
    let p = pending_versions(applied, unique_index);
    assert(p == first + second);
    assert(p.contains(x) <==> first.contains(x) || second.contains(x)) by {
        if first.contains(x) {
            let j = choose|j: int| 0 <= j < first.len() && first[j] == x;
            assert(p[j] == x);
        }
        if second.contains(x) {
            let j = choose|j: int| 0 <= j < second.len() && second[j] == x;
            assert(p[first.len() + j] == x);
        }
        if p.contains(x) {
            let j = choose|j: int| 0 <= j < p.len() && p[j] == x;
            if j < first.len() {
                assert(first[j] == x);
            } else {
                assert(second[j - first.len()] == x);
            }
        }
    }
    assert(first.contains(x) <==> x == 1 && !applied.contains(1u64)) by {
        if first.len() > 0 {
            assert(first[0] == 1u64);
        }
    }
    assert(second.contains(x) <==> x == 2 && unique_index && !applied.contains(2u64)) by {
        if second.len() > 0 {
            assert(second[0] == 2u64);
        }
    }
}

} // verus!
