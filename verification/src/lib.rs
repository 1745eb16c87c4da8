//! Password authentication by a Chaum-Pedersen proof of knowledge over a
//! prime-order subgroup: the proof engine, the server's registration and
//! challenge store, and the client's two flows.

pub mod authentication;
pub mod bignat;
pub mod cli;
pub mod client;
pub mod errors;
pub mod modular;
pub mod server;
pub mod store;
pub mod zkp_auth;
