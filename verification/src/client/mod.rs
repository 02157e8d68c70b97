//! The client session: its options and its state.
pub mod options;
pub mod state;
pub mod flows;
pub mod network;
pub mod client;
