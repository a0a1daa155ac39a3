//! A verified core for a terminal dashboard over a continuous-integration
//! server: the pane/selection state machine, the key dispatcher, the
//! build-record extraction pipeline, and the config-section filter.

pub mod app;
pub mod config;
pub mod event;
pub mod feed;
pub mod handler;
pub mod jenkins;
pub mod text;
