//! The operator's reconcile engine and its packaging helpers.

pub mod controller;
pub mod laws;
pub mod deployment;
