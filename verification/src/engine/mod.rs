//! The engine: what is built, served and watched, when, and what is recorded of it.

pub mod build_laws;
pub mod builds;
pub mod controller_laws;
pub mod controllers;
pub mod desired;
pub mod engine_laws;
pub mod event_laws;
pub mod ignore;
pub mod ignore_laws;
pub mod image_laws;
pub mod image_object_laws;
pub mod images;
pub mod limit_laws;
pub mod listen_laws;
pub mod live_update;
pub mod log;
pub mod manager;
pub mod materialize;
pub mod named_ports;
pub mod object_laws;
pub mod objects;
pub mod order;
pub mod pods;
pub mod order_laws;
pub mod outcome_laws;
pub mod pod_laws;
pub mod port_laws;
pub mod ports;
pub mod reconcile;
pub mod runs;
pub mod serve;
pub mod serve_laws;
pub mod service_laws;
pub mod services;
pub mod state;
pub mod status;
pub mod update_laws;
pub mod watch;
