//! A gateway that runs agents in containers of their own, one for each session, behind the runtime
//! API of a hosted service.
//!
//! The library holds what the gateway decides. It reads no files, opens no connections and starts
//! no containers: what such work needs to know it is told, and what came of it is handed back as
//! plain values.

// Plain values.
pub mod headers;
pub mod json;
pub mod labels;
pub mod number;
pub mod order;
pub mod primitives;
pub mod text;
pub mod text_laws;
pub mod text_set;
pub mod wildcard;

// Who may call a runtime.
pub mod auth;
pub mod auth_laws;
pub mod policy;
pub mod runtime;
pub mod sigv4;
pub mod sigv4_laws;

// Which runtimes there are.
pub mod agent_laws;
pub mod api_laws;
pub mod arn;
pub mod catalog;
pub mod catalog_error;
pub mod catalog_laws;
pub mod config;
pub mod config_laws;
pub mod descriptor;
pub mod discovery;
pub mod discovery_laws;
pub mod environment;
pub mod generation_laws;
pub mod image_laws;
pub mod images;
pub mod preflight;
pub mod preflight_laws;
pub mod record_laws;
pub mod registry;

// The sessions and their containers.
pub mod backend;
pub mod backend_laws;
pub mod container;
pub mod container_laws;
pub mod pins;
pub mod session;
pub mod session_laws;
pub mod session_map;
pub mod session_store;
pub mod startup;

// Requests and answers.
pub mod edge;
pub mod edge_laws;
pub mod event_stream;
pub mod proxy;
pub mod proxy_laws;

// Invocations in containers of their own.
pub mod attempt;
pub mod invocation;

pub use startup::StartupError;
