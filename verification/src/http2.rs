pub mod error;
pub mod frames;
pub mod codec;
pub mod header_builder;
pub mod connection_state;
pub mod stream;
pub mod connection;
pub mod outbound;
