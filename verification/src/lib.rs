//! Interactive decision support for orphaned packages.
//!
//! Classifies installed packages into orphan candidates (installed only as a
//! dependency, required by nothing), partitions them into true orphans and
//! pseudo-orphans, and drives an interactive staging loop in which an operator
//! records an intent per candidate before anything destructive happens.

pub mod action;
pub mod package;
pub mod classify;
pub mod controller;
