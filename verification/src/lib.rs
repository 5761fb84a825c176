//! Verified data-access core for a school-library administration service.
//!
//! The crate models the service's relational state as plain values: one
//! record type per entity table, a generic repository over integer-keyed
//! tables, a repository over the string-keyed country table, and the
//! read-view projections that denormalize several tables into
//! client-facing records (group codes, composed names, polymorphic
//! borrowing histories, aggregated author lists).

pub mod borrows;
pub mod cards;
pub mod catalog;
pub mod country;
pub mod entity;
pub mod error;
pub mod model;
pub mod repo;
pub mod rosters;
pub mod text;
