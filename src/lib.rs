//! Host-local network telemetry core: frame classification, the shared
//! statistics store, socket reconciliation, IP database enrichment and the
//! snapshot/merge/top-N projections, each stated and proved with Verus.

pub mod addr;
pub mod config;
pub mod counters;
pub mod data;
pub mod host;
pub mod ipdb;
pub mod laws;
pub mod packet;
pub mod process;
pub mod projection;
pub mod reconcile;
pub mod service;
pub mod socket;
pub mod stat;
pub mod sys;
pub mod table;
pub mod tabs;
pub mod topn;
pub mod traffic;
pub mod watch;
