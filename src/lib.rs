//! A single-node key-value store: the store and its JSON snapshot, the
//! line-oriented TCP protocol, and the pieces of the HTTP API and the
//! configuration that decide anything.
use vstd::prelude::*;

pub mod api;
pub mod config;
pub mod crypto;
pub mod error;
pub mod laws;
pub mod model;
pub mod node;
pub mod protocol;
pub mod snapshot;
pub mod storage;

pub use config::Config;
pub use error::SynkError;
pub use node::SynkNode;
pub use storage::Storage;
