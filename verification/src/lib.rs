//! Content-addressed file storage core for a multi-tenant document platform.
//!
//! The library models the metadata catalog, the content-addressed store, the
//! access decision engine, the transfer scheduler and the request handlers
//! that tie them together, and proves their governing invariants.

pub mod access;
pub mod ai;
pub mod backend;
pub mod cas;
pub mod catalog;
pub mod compliance;
pub mod cronspec;
pub mod errors;
pub mod health;
pub mod laws;
pub mod ops;
pub mod pack;
pub mod records;
pub mod redact;
pub mod sched;
pub mod share;
pub mod store;
pub mod text_extract;
pub mod textfmt;
pub mod strutil;

pub use access::{Action, Actor, Resource, RoleLabel};
pub use compliance::{ComplianceMode, ComplianceRestrictions};
pub use errors::CoreError;
pub use records::{FileRecord, Visibility};
