pub mod http_stream;
pub mod stream_closed;
pub mod stream_half_closed_local;
pub mod stream_half_closed_remote;
pub mod stream_idle;
pub mod stream_open;
pub mod stream_reserved_remote;
