//! Frame building, formatting and bus bookkeeping for SocketCAN.
pub mod text;
pub mod error;
pub mod frame;
pub mod id;
pub mod filter;
pub mod bus;
pub mod callbacks;
pub mod buffer;
pub mod command;
pub mod dump;
pub mod jorza_bus;
pub mod jorza_socket;


