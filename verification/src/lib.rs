//! A persistent catalog of a filesystem hierarchy.
//!
//! For every regular file under one or more given roots the catalog
//! records identity (name, containing directory), size, timestamps and a
//! content hash, one row per file in an embedded relational store. The
//! store is brought to the expected schema by an ordered, idempotent
//! sequence of migrations; catalog and presence-check operations run
//! inside a single enclosing transaction, so an invocation either
//! commits whole or leaves the store untouched.

pub mod checker;
pub mod hasher;
pub mod laws;
pub mod migrations;
pub mod migrator;
pub mod record;
pub mod run;
pub mod store;
pub mod writer;
