//! Verified core of the Vibealong companion: OSC input, mapping and routing rules,
//! configuration, relay protocol and the state machines behind the desktop application.

pub mod bridge_loop;
pub mod cli;
pub mod config;
pub mod config_file;
pub mod config_laws;
pub mod desktop;
pub mod device_laws;
pub mod diagnostics;
pub mod engine;
pub mod float;
pub mod forms;
pub mod intiface;
pub mod ip;
pub mod ip_text;
pub mod json;
pub mod login;
pub mod mapping;
pub mod model;
pub mod osc;
pub mod osc_laws;
pub mod oscquery;
pub mod panel_laws;
pub mod panels;
pub mod params;
pub mod payload;
pub mod profile_laws;
pub mod query_laws;
pub mod relay;
pub mod relay_laws;
pub mod route_laws;
pub mod rows;
pub mod run_laws;
pub mod runtime;
pub mod runtime_laws;
pub mod service;
pub mod session_laws;
pub mod signal_laws;
pub mod smoothing;
pub mod store;
pub mod text;
pub mod text_laws;
