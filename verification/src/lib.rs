//! Core of a small peer-to-peer node: the control messages it accepts, the
//! records it keeps of other peers, and the decisions of its event loop.

pub mod message;
pub mod text;
pub mod peer;
pub mod directory;
pub mod node;
pub mod history;
pub mod client;
pub mod identity;
pub mod state;
pub mod lifecycle;
pub mod server;
pub mod startup;
pub mod utils;
