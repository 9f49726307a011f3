//! A small record store: items tagged with a priority level from a fixed
//! catalog, the joined view handed to clients, and the mapping of store
//! outcomes to HTTP responses.
//!
//! `store::ItemStore` and the route functions in `handlers` form an in-memory
//! reference model of the relational store: the laws are proved about it. A
//! service backed by a SQL database runs its own statements and takes from
//! this crate the seeding decision (`catalog::seed_plan`), the reading of
//! affected-row counts (`error::affected_outcome`) and the response mapping
//! (`handlers::respond_*`).

pub mod catalog;
pub mod error;
pub mod store;
pub mod laws;
pub mod handlers;
