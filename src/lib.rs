pub mod cli;
pub mod error;
pub mod framer;
pub mod language;
pub mod pending;
pub mod protocol;
pub mod server;
