//! Interactive harness logic for sandboxed smart-contract modules: a schema-driven
//! message builder, an address-keyed instance registry with hot reload, and the
//! decisions of the operator session and of the call API.

pub mod text;
pub mod schema;
pub mod message;
pub mod instance;
pub mod registry;
pub mod watch;
pub mod session;
pub mod api;
pub mod artifact;
