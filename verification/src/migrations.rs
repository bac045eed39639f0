//! The ordered, append-only sequence of schema migrations.
//!
//! Each migration is a pure function from no arguments to one SQL script;
//! once shipped its SQL never changes. The migrator (see
//! [`crate::migrator`]) applies, in ascending version order, exactly the
//! migrations the store has not recorded yet.

pub mod v1_initial_migration;
pub mod v2_add_unique_index;
