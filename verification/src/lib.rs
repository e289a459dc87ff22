pub mod bytes;
pub mod http2;
pub mod response;
pub mod types;
pub mod util;
pub mod request;
pub mod read;
pub mod gc_buffer;
pub mod settings_frame;
pub mod text;
pub mod clock;
