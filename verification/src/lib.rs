//! Storage core for a roadmap-authoring application.
//!
//! The library models the persistence layer's startup lifecycle: resolving
//! the database location, opening a connection, and applying versioned
//! schema migrations, together with the schema the application queries and
//! the referential invariants its records obey. All decisions are made by
//! verified functions; the surrounding process performs the actual file and
//! database engine calls and feeds their outcomes back in.

pub mod connection;
pub mod migrations;
pub mod schema;
pub mod store;
