//! A mod manager's core: compatibility filters, the resolution of named
//! sources to downloadable artifacts, and the reconciliation of a directory
//! with the resolved set.

pub mod filters;
pub mod source;
pub mod resolve;
pub mod reconcile;
pub mod execute;
pub mod options;
pub mod config;
pub mod legacy;
