//! The handles through which an application uses the runtime: what they remember, and the
//! commands that they send.

pub mod event;
pub mod find;
pub mod handle_laws;
pub mod instance;
pub mod offer;
pub mod offering;
pub mod proxy;
pub mod responder;
pub mod subscription;
