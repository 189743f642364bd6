//! Catalog-consistency core for a REST layer over a search-engine backend.
//!
//! Client applications create, enumerate and delete named resources (indexes,
//! and a genre variant keyed by user) while a per-owner catalog document is
//! kept in agreement with the resources that actually exist in the backend.
//! This crate holds the logic with real invariant and ordering concerns:
//! resolving an owner and resource name to a backend-qualified name,
//! classifying the joint catalog/backend state of a resource, and the
//! create/delete operations that must leave catalog and backend in agreement
//! even though the two cannot be updated atomically. HTTP routing, JSON
//! marshalling and the transport to the real backend live outside this crate.

pub mod catalog;
pub mod errors;
pub mod lifecycle;
pub mod model;
pub mod reconcile;
pub mod resolver;
