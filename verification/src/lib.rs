//! Core of a personal creative-journaling tool: the entry store, the
//! engagement streak, and the usage metrics that are exported from it.

pub mod archive;
pub mod clock;
pub mod display;
pub mod entry;
pub mod exporter;
pub mod import;
pub mod metrics;
pub mod queries;
pub mod readout;
pub mod receive;
pub mod session;
pub mod store;
pub mod streak;
pub mod text;
pub mod user_agent;
