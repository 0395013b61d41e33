//! Verified core of the `btpis` command-line client for SAP BTP Integration Suite.

pub mod text;
pub mod xml;
pub mod dates;
pub mod style;
pub mod logs;
pub mod config;
pub mod auth;
pub mod adapters;
pub mod undeploy;
pub mod listing;
pub mod iflow;
pub mod utils;
