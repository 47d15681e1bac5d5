//! Starling: the decisions behind a local development orchestrator.

pub mod api;
pub mod build_history;
pub mod certs;
pub mod ci;
pub mod ci_laws;
pub mod cli;
pub mod cluster;
pub mod daemon;
pub mod engine;
pub mod frontend;
pub mod health;
pub mod health_laws;
pub mod history_laws;
pub mod http;
pub mod http_laws;
pub mod json;
pub mod json_laws;
pub mod k8s;
pub mod k8s_laws;
pub mod manifest;
pub mod netmodes;
pub mod path_order;
pub mod path_laws;
pub mod paths;
pub mod probe;
pub mod proxy;
pub mod proxy_handle;
pub mod proxy_laws;
pub mod server;
pub mod server_laws;
pub mod table;
pub mod text;
pub mod text_laws;
pub mod trees;
pub mod web_laws;
pub mod word_laws;
pub mod x509;
