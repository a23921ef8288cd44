pub mod acceptor;
pub mod channel_message;
pub mod config;
pub mod defaults;
pub mod framer;
pub mod message;
pub mod reconcile;
pub mod token;
pub mod types;
pub mod wire;
