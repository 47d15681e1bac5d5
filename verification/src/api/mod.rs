//! The API objects that an instance serves.

pub mod merge;
pub mod schema;
pub mod store;
pub mod store_laws;
pub mod v1alpha1;
pub mod webview;
