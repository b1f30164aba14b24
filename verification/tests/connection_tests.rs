use roadmap_store::connection::{
    database_file_name, database_url, resolve_database_url, startup_outcome, FatalError,
};

#[test]
fn database_file_has_the_fixed_name() {
    assert_eq!(database_file_name(), "rdmp.db");
}

#[test]
fn database_url_appends_the_file_to_the_base_directory() {
    assert_eq!(
        database_url("/home/someone/.local/share/rdmp"),
        "/home/someone/.local/share/rdmp/rdmp.db"
    );
    assert_eq!(database_url(""), "/rdmp.db");
}

#[test]
fn unresolvable_base_directory_is_fatal() {
    assert_eq!(resolve_database_url(None), Err(FatalError::PathResolution));
}

#[test]
fn resolved_base_directory_yields_the_database_location() {
    assert_eq!(
        resolve_database_url(Some("/data")),
        Ok("/data/rdmp.db".to_string())
    );
}

#[test]
fn failed_open_is_fatal_and_never_yields_a_connection() {
    // A connection-open failure must surface as a fatal error, whatever
    // the migration outcome would have been: never a silently ignored
    // failure.
    assert_eq!(startup_outcome(false, None), Err(FatalError::Connection));
    assert_eq!(
        startup_outcome(false, Some(2)),
        Err(FatalError::Connection)
    );
}

#[test]
fn failed_migration_is_fatal_with_its_version() {
    assert_eq!(
        startup_outcome(true, Some(2)),
        Err(FatalError::Migration { version: 2 })
    );
}

#[test]
fn clean_startup_succeeds() {
    assert_eq!(startup_outcome(true, None), Ok(()));
}
