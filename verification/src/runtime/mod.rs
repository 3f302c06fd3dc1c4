//! The runtime: its state and what it does on every event.

pub mod acknowledgement_laws;
pub mod action;
pub mod announcement_laws;
pub mod answer_laws;
pub mod asking_laws;
pub mod beside_laws;
pub mod channels;
pub mod client;
pub mod client_concurrent;
pub mod cluster;
pub mod command;
pub mod cycle_laws;
pub mod event_laws;
pub mod event_loop;
pub mod exchange_laws;
pub mod execute;
pub mod incoming;
pub mod laws;
pub mod offer_laws;
pub mod periodic;
pub mod reader_laws;
pub mod reading;
pub mod request_laws;
pub mod rpc;
pub mod sd;
pub mod sd_client;
pub mod sd_server;
pub mod search_laws;
pub mod server;
pub mod shutdown_laws;
pub mod state;
pub mod subscribe;
pub mod subscribing_laws;
pub mod subscription_laws;
pub mod upkeep_laws;
