//! Reconciliation core of a controller that turns torrent intake files into
//! download jobs and moves finished downloads into place.

pub mod config;
pub mod ident;
pub mod job;
pub mod reconcile;
