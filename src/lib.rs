pub mod broker;
pub mod client;
pub mod header;
pub mod server;
pub mod wire;

pub use wire::{Descriptor, MessageType};
