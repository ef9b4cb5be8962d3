//! Supervision core for a local proxy sidecar: a two-state process
//! supervisor, an OAuth session coordinator tracking at most one pending
//! authorization, per-provider authentication flags with a monotone
//! reconciliation rule, and the text codecs for the persisted configuration
//! documents and the management-API exchanges.

pub mod codec;
pub mod model;
pub mod oauth;
pub mod provider;
pub mod reconcile;
pub mod supervisor;
pub mod text;
pub mod wire;
