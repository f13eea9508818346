//! A verified core for a node-ranking import service: an identifier-keyed
//! store with atomic batch upsert, an import orchestrator that reconciles a
//! fetched snapshot against the store, and a read path that renders stored
//! rows into a client-facing view.

pub mod models;
pub mod store;
pub mod import;
pub mod laws;
pub mod view;
