//! Versioned schema migrations and the ledger that tracks them.
//!
//! The runner holds a fixed, ordered collection of migration units, each a
//! monotonically increasing version paired with a schema-change script,
//! compiled into the artifact. A reserved ledger table inside the same
//! database records the highest successfully applied version. The
//! surrounding process drives the run: it asks [`next_pending`] for the
//! first unit past the ledger's value, executes the script as one atomic
//! step, advances the ledger to that unit's version on success, and stops
//! fatally at the first failure. The lemmas at the end of this module show
//! that such a run applies every unit in ascending order exactly once and
//! that a run on an already-current database performs no work.

use vstd::prelude::*;
use vstd::string::StringExecFns;

use crate::connection::FatalError;

verus! {

/// One migration unit: a schema version and the script that brings the
/// previous version's schema to it.
pub struct Migration {
    pub version: u64,
    pub script: String,
}

/// The mathematical value of a [`Migration`].
pub struct MigrationModel {
    pub version: u64,
    pub script: Seq<char>,
}

impl View for Migration {
    type V = MigrationModel;

    open spec fn view(&self) -> MigrationModel {
        MigrationModel { version: self.version, script: self.script@ }
    }
}

impl Clone for Migration {
    fn clone(&self) -> (r: Self)
        ensures
            r@ == self@,
    {
        Migration { version: self.version, script: self.script.clone() }
    }
}

/// The first migration: the `maps` table.
pub open spec fn spec_migration_one() -> MigrationModel {
    MigrationModel {
        version: 1,
        script: "CREATE TABLE maps (uuid TEXT PRIMARY KEY NOT NULL, title TEXT NOT NULL, description TEXT NOT NULL);"@,
    }
}

/// The second migration: the `nodes` table, referencing `maps`.
pub open spec fn spec_migration_two() -> MigrationModel {
    MigrationModel {
        version: 2,
        script: "CREATE TABLE nodes (uuid TEXT PRIMARY KEY NOT NULL, title TEXT NOT NULL, description TEXT NOT NULL, node_type TEXT NOT NULL, parent_node TEXT, roadmap_uuid TEXT NOT NULL REFERENCES maps (uuid));"@,
    }
}

/// The full, ordered collection of migration units.
pub open spec fn spec_migrations() -> Seq<MigrationModel> {
    seq![spec_migration_one(), spec_migration_two()]
}

/// The highest version among the known migration units.
pub open spec fn spec_latest_version() -> u64 {
    2
}

/// Holds of a migration unit still to apply when the ledger stands at
/// `current`.
pub open spec fn pending_pred(current: u64) -> spec_fn(MigrationModel) -> bool {
    |m: MigrationModel| m.version > current
}

/// The units still to apply when the ledger stands at `current`: exactly
/// those whose version exceeds it, in their original ascending order.
pub open spec fn spec_pending(current: u64) -> Seq<MigrationModel> {
    spec_migrations().filter(pending_pred(current))
}

/// The mathematical values of a sequence of migration units.
pub open spec fn views_of_migrations(s: Seq<Migration>) -> Seq<MigrationModel> {
    s.map_values(|m: Migration| m@)
}

/// Case analysis of [`spec_pending`] over every ledger value.
proof fn lemma_pending_cases(current: u64)
    ensures
        current < 1 ==> spec_pending(current) == spec_migrations(),
        1 <= current < 2 ==> spec_pending(current) == seq![spec_migration_two()],
        current >= 2 ==> spec_pending(current) == Seq::<MigrationModel>::empty(),
{
    reveal_with_fuel(Seq::<_>::filter, 4);
    let pred = pending_pred(current);
    let s = spec_migrations();
    assert(s.drop_last() =~= seq![spec_migration_one()]);
    assert(seq![spec_migration_one()].drop_last() =~= Seq::<MigrationModel>::empty());
    assert(Seq::<MigrationModel>::empty().filter(pred) =~= Seq::<MigrationModel>::empty());
    if current < 1 {
        assert(s.filter(pred) =~= s);
    } else if current < 2 {
        assert(s.filter(pred) =~= seq![spec_migration_two()]);
    } else {
        assert(s.filter(pred) =~= Seq::<MigrationModel>::empty());
    }
}

/// The compiled-in migration units, in ascending version order.
pub fn migrations() -> (r: Vec<Migration>)
    ensures
        views_of_migrations(r@) == spec_migrations(),
{
    let mut r: Vec<Migration> = Vec::new();
    r.push(
        Migration {
            version: 1,
            script: String::from_str(
                "CREATE TABLE maps (uuid TEXT PRIMARY KEY NOT NULL, title TEXT NOT NULL, description TEXT NOT NULL);",
            ),
        },
    );
    r.push(
        Migration {
            version: 2,
            script: String::from_str(
                "CREATE TABLE nodes (uuid TEXT PRIMARY KEY NOT NULL, title TEXT NOT NULL, description TEXT NOT NULL, node_type TEXT NOT NULL, parent_node TEXT, roadmap_uuid TEXT NOT NULL REFERENCES maps (uuid));",
            ),
        },
    );
    proof {
        assert(views_of_migrations(r@) =~= spec_migrations());
    }
    r
}

/// The name of the reserved ledger table inside the database that records
/// every successfully applied migration version; its highest entry is the
/// current version, and an empty ledger means version zero.
pub fn ledger_table_name() -> (r: String)
    ensures
        r@ == "schema_ledger"@,
{
    String::from_str("schema_ledger")
}

/// The script that creates the reserved ledger table when it is absent;
/// safe to run on every startup, including against a fresh, empty
/// database file.
pub fn ledger_setup_script() -> (r: String)
    ensures
        r@ == "CREATE TABLE IF NOT EXISTS schema_ledger (version BIGINT PRIMARY KEY NOT NULL);"@,
{
    String::from_str(
        "CREATE TABLE IF NOT EXISTS schema_ledger (version BIGINT PRIMARY KEY NOT NULL);",
    )
}

/// The version an up-to-date ledger holds.
pub fn latest_version() -> (r: u64)
    ensures
        r == spec_latest_version(),
{
    2
}

/// Every migration unit whose version exceeds the ledger's `current`
/// value, in ascending version order.
pub fn pending(current: u64) -> (r: Vec<Migration>)
    ensures
        views_of_migrations(r@) == spec_pending(current),
{
    let migs = migrations();
    let mut r: Vec<Migration> = Vec::new();
    let mut i: usize = 0;
    while i < migs.len()
        invariant
            i <= migs.len(),
            views_of_migrations(migs@) == spec_migrations(),
            views_of_migrations(r@) == views_of_migrations(migs@).take(i as int).filter(
                pending_pred(current),
            ),
        decreases migs.len() - i,
    {
        proof {
            assert(views_of_migrations(migs@).take(i + 1) =~= views_of_migrations(migs@).take(
                i as int,
            ).push(migs@[i as int]@));
            Seq::lemma_filter_push(
                views_of_migrations(migs@).take(i as int),
                migs@[i as int]@,
                pending_pred(current),
            );
        }
        if migs[i].version > current {
            let ghost prev = r@;
            r.push(migs[i].clone());
            proof {
                assert(views_of_migrations(r@) =~= views_of_migrations(prev).push(migs@[i as int]@));
            }
        }
        i = i + 1;
    }
    proof {
        assert(views_of_migrations(migs@).take(migs@.len() as int) =~= views_of_migrations(migs@));
    }
    r
}

/// The first migration unit still to apply at ledger value `current`, or
/// `None` when the database is already current.
pub fn next_pending(current: u64) -> (r: Option<Migration>)
    ensures
        r is None <==> spec_pending(current).len() == 0,
        r is Some ==> r->0@ == spec_pending(current)[0],
{
    let mut p = pending(current);
    if p.len() == 0 {
        None
    } else {
        let first = p.remove(0);
        proof {
            assert(first@ == views_of_migrations(p@.insert(0, first))[0]);
        }
        Some(first)
    }
}

/// The runner's reaction to one unit's outcome. `applied` reports whether
/// the unit's script ran to completion as one atomic step: if so, the
/// ledger advances to the unit's version; if not, the run stops fatally
/// with the failing version, and later units are not attempted. Earlier
/// units stay committed either way — each was atomic on its own.
pub fn after_unit(unit_version: u64, applied: bool) -> (r: Result<u64, FatalError>)
    ensures
        applied ==> r == Result::<u64, FatalError>::Ok(unit_version),
        !applied ==> r == Result::<u64, FatalError>::Err(
            FatalError::Migration { version: unit_version },
        ),
{
    if applied {
        Ok(unit_version)
    } else {
        Err(FatalError::Migration { version: unit_version })
    }
}

/// Every version in the collection is at least one, and versions strictly
/// ascend: each unit has a distinct place in the order.
pub proof fn lemma_migrations_ordered()
    ensures
        forall|i: int|
            0 <= i < spec_migrations().len() ==> (#[trigger] spec_migrations()[i]).version >= 1,
        forall|i: int, j: int|
            0 <= i < j < spec_migrations().len() ==> spec_migrations()[i].version
                < spec_migrations()[j].version,
        spec_migrations().len() > 0,
        spec_migrations().last().version == spec_latest_version(),
{
}

/// On a freshly created, empty database the ledger stands at zero, so
/// every known migration unit is pending, in ascending order, and a run
/// that applies each pending unit and advances the ledger to its version
/// ends with the ledger at the highest known version.
pub proof fn lemma_fresh_run_applies_all()
    ensures
        spec_pending(0) == spec_migrations(),
        spec_pending(0).len() > 0,
        spec_pending(0).last().version == spec_latest_version(),
{
    lemma_pending_cases(0);
}

/// Idempotence: when the ledger already stands at (or past) the highest
/// known version, nothing is pending, so a renewed run performs no work
/// and succeeds.
pub proof fn lemma_idempotent(current: u64)
    requires
        current >= spec_latest_version(),
    ensures
        spec_pending(current) == Seq::<MigrationModel>::empty(),
{
    lemma_pending_cases(current);
}

/// The ledger only moves forward: the next unit a run applies always
/// carries a version above the ledger's current value.
pub proof fn lemma_run_advances(current: u64)
    requires
        spec_pending(current).len() > 0,
    ensures
        spec_pending(current)[0].version > current,
{
    Seq::lemma_filter_pred(spec_migrations(), pending_pred(current), 0);
}

/// One step of a run: applying the first pending unit and advancing the
/// ledger to its version leaves exactly the remaining pending units, still
/// in order. A run therefore applies each pending unit exactly once, in
/// ascending version order.
pub proof fn lemma_run_step(current: u64)
    requires
        spec_pending(current).len() > 0,
    ensures
        spec_pending(spec_pending(current)[0].version) == spec_pending(current).drop_first(),
{
    lemma_pending_cases(current);
    lemma_pending_cases(spec_pending(current)[0].version);
    if current < 1 {
        assert(spec_pending(current)[0] == spec_migration_one());
        assert(spec_pending(1).len() == 1);
        assert(spec_pending(current).drop_first() =~= seq![spec_migration_two()]);
    } else {
        assert(spec_pending(current)[0] == spec_migration_two());
        assert(spec_pending(current).drop_first() =~= Seq::<MigrationModel>::empty());
    }
}

} // verus!
