use roadmap_store::connection::FatalError;
use roadmap_store::migrations::{
    after_unit, latest_version, ledger_setup_script, ledger_table_name, migrations, next_pending,
    pending,
};

#[test]
fn migrations_are_ordered_and_nonempty() {
    let migs = migrations();
    assert!(migs.len() > 0);
    for w in migs.windows(2) {
        assert!(w[0].version < w[1].version);
    }
    for m in &migs {
        assert!(m.version >= 1);
        assert!(m.script.contains("CREATE TABLE"));
    }
    assert_eq!(migs.last().unwrap().version, latest_version());
}

#[test]
fn migration_scripts_create_the_declared_tables() {
    let migs = migrations();
    assert_eq!(
        migs[0].script,
        "CREATE TABLE maps (uuid TEXT PRIMARY KEY NOT NULL, title TEXT NOT NULL, description TEXT NOT NULL);"
    );
    assert!(migs[1].script.contains("CREATE TABLE nodes"));
    assert!(migs[1].script.contains("parent_node TEXT,"));
    assert!(migs[1].script.contains("roadmap_uuid TEXT NOT NULL REFERENCES maps (uuid)"));
}

#[test]
fn fresh_database_run_applies_every_unit_and_reaches_latest() {
    // A fresh, empty database has an empty ledger: version zero. Driving
    // the runner to completion must apply every unit once, in ascending
    // order, and leave the ledger at the highest known version.
    let mut version: u64 = 0;
    let mut applied: Vec<u64> = Vec::new();
    while let Some(m) = next_pending(version) {
        applied.push(m.version);
        version = m.version;
    }
    assert_eq!(applied, vec![1, 2]);
    assert_eq!(version, latest_version());
}

#[test]
fn rerun_on_current_database_performs_no_work() {
    assert_eq!(pending(latest_version()).len(), 0);
    assert!(next_pending(latest_version()).is_none());
}

#[test]
fn pending_holds_exactly_the_versions_past_the_ledger() {
    let from_zero: Vec<u64> = pending(0).iter().map(|m| m.version).collect();
    assert_eq!(from_zero, vec![1, 2]);
    let from_one: Vec<u64> = pending(1).iter().map(|m| m.version).collect();
    assert_eq!(from_one, vec![2]);
    assert_eq!(pending(2).len(), 0);
    assert_eq!(pending(u64::MAX).len(), 0);
}

#[test]
fn next_pending_returns_the_first_pending_unit() {
    let first = next_pending(0).unwrap();
    assert_eq!(first.version, 1);
    let second = next_pending(first.version).unwrap();
    assert_eq!(second.version, 2);
    assert!(next_pending(second.version).is_none());
}

#[test]
fn ledger_table_is_reserved_and_created_if_absent() {
    assert_eq!(ledger_table_name(), "schema_ledger");
    let setup = ledger_setup_script();
    assert!(setup.contains("CREATE TABLE IF NOT EXISTS schema_ledger"));
}

#[test]
fn failing_unit_is_fatal_with_its_version() {
    assert_eq!(after_unit(2, true), Ok(2));
    assert_eq!(
        after_unit(2, false),
        Err(FatalError::Migration { version: 2 })
    );
}

#[test]
fn interrupted_run_keeps_earlier_units_and_resumes_in_order() {
    // If a run stopped after applying version 1 (a failure at unit 2 is
    // fatal but leaves unit 1 committed), a later run resumes at unit 2.
    let resumed: Vec<u64> = pending(1).iter().map(|m| m.version).collect();
    assert_eq!(resumed, vec![2]);
}
