//! Service discovery, request routing and event subscription for SOME/IP.

pub mod buffer;
pub mod builder;
pub mod config;
pub mod discovery;
pub mod error;
pub mod handles;
pub mod ids;
pub mod layout_laws;
pub mod message;
pub mod net;
pub mod nonempty;
pub mod rows;
pub mod runtime;
pub mod table;
pub mod text;
pub mod wire;

pub use builder::{configure, SomeIpBuilder};
