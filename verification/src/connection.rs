//! Connection management: resolving the database file location and
//! classifying the outcome of the startup sequence.
//!
//! The database lives in one file, at a fixed name inside the
//! application's per-user base data directory. Resolving that directory and
//! opening the file are operating-system and database-engine calls made by
//! the surrounding process; the functions here make the decisions: how the
//! path is formed, and which failures are fatal.

use vstd::prelude::*;
use vstd::string::StringExecFns;

verus! {

/// A condition that makes the storage core unusable for this process run.
///
/// None of these is recovered locally: the composition root logs the error
/// and terminates the process, so no collaborator ever observes a missing,
/// unopened, or partially migrated store.
#[derive(Clone, Copy, Debug, PartialEq, Eq, Structural)]
pub enum FatalError {
    /// The per-user base data directory, or the database file path inside
    /// it, could not be determined or represented as a string.
    PathResolution,
    /// The database file could not be opened or created.
    Connection,
    /// A migration script failed to apply; holds the failing version.
    Migration { version: u64 },
}

/// The fixed name of the database file inside the base data directory.
pub fn database_file_name() -> (r: String)
    ensures
        r@ == "rdmp.db"@,
{
    String::from_str("rdmp.db")
}

/// The string form of the database file's full path: the base directory,
/// a path separator, and the fixed file name.
pub fn database_url(base_dir: &str) -> (r: String)
    ensures
        r@ == base_dir@ + "/"@ + "rdmp.db"@,
{
    let mut url = base_dir.to_owned();
    url.append("/");
    url.append("rdmp.db");
    url
}

/// Turns the outcome of resolving the base data directory into either the
/// database location or a fatal error: an unrepresentable or undeterminable
/// directory is fatal, and a resolved one yields exactly the fixed file
/// inside it.
pub fn resolve_database_url(base_dir: Option<&str>) -> (r: Result<String, FatalError>)
    ensures
        base_dir is None ==> r == Result::<String, FatalError>::Err(FatalError::PathResolution),
        base_dir is Some ==> r is Ok && r->Ok_0@ == base_dir->0@ + "/"@ + "rdmp.db"@,
{
    match base_dir {
        None => Err(FatalError::PathResolution),
        Some(dir) => Ok(database_url(dir)),
    }
}

/// Classifies the end of the startup sequence: whether a connection may be
/// handed to collaborators.
///
/// `connected` reports whether the database file was opened; on a
/// successful open, `failed_migration` carries the version of the first
/// migration script that failed to apply, if any. The result is `Ok` exactly
/// when the file was opened and every pending migration applied, so no
/// caller ever observes an unopened or unmigrated connection.
pub fn startup_outcome(connected: bool, failed_migration: Option<u64>) -> (r: Result<
    (),
    FatalError,
>)
    ensures
        !connected ==> r == Result::<(), FatalError>::Err(FatalError::Connection),
        connected && failed_migration is Some ==> r == Result::<(), FatalError>::Err(
            FatalError::Migration { version: failed_migration->0 },
        ),
        connected && failed_migration is None ==> r == Result::<(), FatalError>::Ok(()),
        r is Ok <==> connected && failed_migration is None,
{
    if !connected {
        Err(FatalError::Connection)
    } else {
        match failed_migration {
            Some(version) => Err(FatalError::Migration { version }),
            None => Ok(()),
        }
    }
}

} // verus!
