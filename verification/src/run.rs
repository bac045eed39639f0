//! The orchestrator: one invocation, one transaction.
//!
//! An invocation opens the store, brings it to the target schema, then
//! runs all requested catalog walks and all requested check walks inside
//! a single enclosing transaction and commits. If anything fails after
//! the migrations, the transaction is rolled back whole: an invocation
//! either appends every record of every requested walk or none at all.
//! (Batching every insert into one commit is an order of magnitude
//! faster than committing per file; the price is the all-or-nothing
//! semantics.)

use vstd::prelude::*;

use crate::checker::CheckLine;
use crate::checker::check_batch;
use crate::checker::lines_ok;
use crate::migrator::known_versions;
use crate::migrator::migrate;
use crate::migrator::target_versions;
use crate::record::FileRecord;
use crate::record::WalkEntry;
use crate::record::capped;
use crate::record::hashed_total;
use crate::record::lemma_capped_chain;
use crate::record::records_of;
use crate::record::sat_add;
use crate::store::Catalog;
use crate::store::CatalogError;
use crate::store::sql_error;
use crate::writer::add_batch;

verus! {

/// What one invocation reports: how many migrations were newly applied,
/// the bytes hashed over all walks (saturating at `u64::MAX`), and one
/// block of check lines per requested check walk.
#[derive(Debug)]
pub struct RunReport {
    pub migrations_applied: u64,
    pub total: u64,
    pub checks: Vec<Vec<CheckLine>>,
}

/// The records that cataloging a list of walks appends, in order.
pub open spec fn batches_records(batches: Seq<Vec<WalkEntry>>) -> Seq<FileRecord>
    decreases batches.len(),
{
    if batches.len() == 0 {
        Seq::empty()
    } else {
        batches_records(batches.drop_last()) + records_of(batches.last()@)
    }
}

/// The bytes hashed over a list of walks.
pub open spec fn batches_hashed(batches: Seq<Vec<WalkEntry>>) -> nat
    decreases batches.len(),
{
    if batches.len() == 0 {
        0
    } else {
        batches_hashed(batches.drop_last()) + hashed_total(batches.last()@)
    }
}

proof fn lemma_batches_step(batches: Seq<Vec<WalkEntry>>, i: int)
    requires
        0 <= i < batches.len(),
    ensures
        batches_records(batches.take(i + 1)) == batches_records(batches.take(i)) + records_of(
            batches[i]@,
        ),
        batches_hashed(batches.take(i + 1)) == batches_hashed(batches.take(i)) + hashed_total(
            batches[i]@,
        ),
{
    assert(batches.take(i + 1).drop_last() =~= batches.take(i));
    assert(batches.take(i + 1).last() == batches[i]);
}

/// Run one invocation against an open store: bring the schema to the
/// target (the unique `(name, path)` index belongs to it exactly when
/// `unique_index` is set), then, inside a single transaction, catalog
/// every `adds` walk and check every `checks` walk — the checks see the
/// records the same invocation just inserted — and commit. On success
/// the rows grow by exactly the records of the `adds` walks, in order,
/// and the store is vouched to have recorded only migration versions
/// this program knows — a newer store fails before any catalog or check
/// operation runs. On any failure nothing of the invocation's work
/// remains in the rows.
pub fn run_catalog(
    cat: &mut Catalog,
    unique_index: bool,
    adds: &Vec<Vec<WalkEntry>>,
    checks: &Vec<Vec<WalkEntry>>,
) -> (r: Result<RunReport, CatalogError>)
    requires
        !old(cat).in_tx(),
    ensures
        !final(cat).in_tx(),
        forall|x: u64| old(cat).applied().contains(x) ==> final(cat).applied().contains(x),
        forall|x: u64|
            final(cat).applied().contains(x) ==> old(cat).applied().contains(x) || target_versions(
                unique_index,
            ).contains(x),
        match r {
            Ok(rep) => ({
                let rows1 = old(cat).rows() + batches_records(adds@);
                &&& final(cat).rows() == rows1
                &&& final(cat).applied() == old(cat).applied().union(
                    target_versions(unique_index),
                )
                &&& rep.total == capped(batches_hashed(adds@) + batches_hashed(checks@))
                &&& rep.checks@.len() == checks@.len()
                &&& forall|j: int|
                    0 <= j < checks@.len() ==> lines_ok(rows1, checks@[j]@, #[trigger] rep.checks@[j]@)
                &&& (rep.migrations_applied == 0 <==> target_versions(unique_index).subset_of(
                    old(cat).applied(),
                ))
                &&& (forall|x: u64|
                    old(cat).applied().contains(x) ==> known_versions().contains(x))
                &&& (!old(cat).applied().contains(1u64) ==> final(cat).has_files())
                &&& (unique_index && !old(cat).applied().contains(2u64)
                    ==> final(cat).has_unique())
            }),
            Err(_) => final(cat).rows() == old(cat).rows(),
        },
{
    let migrations_applied = match migrate(cat, unique_index) {
        Ok(k) => k,
        Err(e) => {
            return Err(e);
        },
    };
    match cat.begin() {
        Ok(_) => (),
        Err(e) => {
            let (code, message) = sql_error(&e);
            return Err(CatalogError::Sql { code, message });
        },
    }
    let ghost rows0 = cat.rows();
    let mut total: u64 = 0;
    let ghost all_adds = adds@;
    proof {
        assert(batches_records(all_adds.take(0)) =~= Seq::<FileRecord>::empty());
        assert(cat.rows() + batches_records(all_adds.take(0)) =~= cat.rows());
    }
    for i in 0..adds.len()
        invariant
            all_adds == adds@,
            cat.in_tx(),
            cat.base() == rows0,
            rows0 == old(cat).rows(),
            cat.applied() == old(cat).applied().union(target_versions(unique_index)),
            !old(cat).applied().contains(1u64) ==> cat.has_files(),
            unique_index && !old(cat).applied().contains(2u64) ==> cat.has_unique(),
            cat.rows() == rows0 + batches_records(all_adds.take(i as int)),
            total == capped(batches_hashed(all_adds.take(i as int))),
    {
        proof {
            lemma_batches_step(all_adds, i as int);
        }
        let ghost prefix_records = batches_records(all_adds.take(i as int));
        let t = match add_batch(cat, &adds[i]) {
            Ok(t) => t,
            Err(e) => {
                cat.rollback();
                return Err(e);
            },
        };
        proof {
            lemma_capped_chain(
                batches_hashed(all_adds.take(i as int)),
                hashed_total(all_adds[i as int]@),
            );
            assert(rows0 + batches_records(all_adds.take(i as int + 1)) =~= (rows0
                + prefix_records) + records_of(all_adds[i as int]@));
        }
        total = sat_add(total, t);
    }
    proof {
        assert(all_adds.take(all_adds.len() as int) =~= all_adds);
    }
    let ghost rows1 = cat.rows();
    let ghost added_hashed = batches_hashed(all_adds);
    let mut check_blocks: Vec<Vec<CheckLine>> = Vec::new();
    let ghost all_checks = checks@;
    proof {
        assert(batches_hashed(all_checks.take(0)) == 0);
    }
    for j in 0..checks.len()
        invariant
            all_checks == checks@,
            cat.in_tx(),
            cat.base() == rows0,
            rows0 == old(cat).rows(),
            cat.applied() == old(cat).applied().union(target_versions(unique_index)),
            !old(cat).applied().contains(1u64) ==> cat.has_files(),
            unique_index && !old(cat).applied().contains(2u64) ==> cat.has_unique(),
            cat.rows() == rows1,
            rows1 == rows0 + batches_records(adds@),
            total == capped(added_hashed + batches_hashed(all_checks.take(j as int))),
            added_hashed == batches_hashed(adds@),
            check_blocks@.len() == j,
            forall|k: int|
                0 <= k < j ==> lines_ok(rows1, all_checks[k]@, #[trigger] check_blocks@[k]@),
    {
        proof {
            lemma_batches_step(all_checks, j as int);
        }
        let out = match check_batch(cat, &checks[j]) {
            Ok(out) => out,
            Err(e) => {
                cat.rollback();
                return Err(e);
            },
        };
        proof {
            lemma_capped_chain(
                added_hashed + batches_hashed(all_checks.take(j as int)),
                hashed_total(all_checks[j as int]@),
            );
        }
        total = sat_add(total, out.1);
        check_blocks.push(out.0);
    }
    proof {
        assert(all_checks.take(all_checks.len() as int) =~= all_checks);
    }
    match cat.commit() {
        Ok(_) => (),
        Err(e) => {
            cat.rollback();
            let (code, message) = sql_error(&e);
            return Err(CatalogError::Sql { code, message });
        },
    }
    Ok(RunReport { migrations_applied, total, checks: check_blocks })
}

} // verus!
