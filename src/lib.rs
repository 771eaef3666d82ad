//! Core of an administrative client for a hierarchical coordination service:
//! recursive listing of the namespace, value hydration of listings, and
//! classification of cluster members from their diagnostic output.

pub mod role;
pub mod listing;
pub mod text;
pub mod node;
pub mod settings;
