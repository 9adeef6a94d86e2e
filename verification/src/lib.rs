//! Porkbun DNS provider library: the rules by which a plan of record changes
//! becomes Porkbun API calls, and by which the live records of a zone become
//! the keyed tree that a plan is computed from.
//!
//! Everything here is plain computation on plain values.  Sending requests,
//! decoding replies and talking to the plan engine belong to the program
//! around the library.
pub mod apply;
pub mod change_laws;
pub mod client;
pub mod config;
pub mod entries;
pub mod error;
pub mod field_value;
pub mod json;
pub mod laws;
pub mod listing_laws;
pub mod model;
pub mod operation;
pub mod plan;
pub mod provider;
pub mod reconcile;
pub mod reconcile_laws;
pub mod request_laws;
pub mod text;
pub mod value_laws;

pub use provider::PorkbunProvider;

