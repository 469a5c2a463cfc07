//! A declarative schema migrator for SQLite.
//!
//! The library reconciles a live database with a target DDL text: it compares
//! the current schema with a pristine schema built from the target DDL, plans
//! the changes, refuses destructive plans unless deletions are allowed, and
//! produces the ordered list of SQL statements that brings the database to the
//! target shape.  All decisions are made here, on plain introspected values;
//! the surrounding application performs the database I/O.

pub mod api;
pub mod auth;
pub mod diff;
pub mod error;
pub mod migrator;
pub mod models;
pub mod normalize;
pub mod policy;
pub mod routes;
pub mod schema;
pub mod script;
pub mod text;
pub mod validation;

