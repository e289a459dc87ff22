use vstd::prelude::*;

use crate::bytes::{be32_at, read_u32_be};

verus! {

/// The connection settings as a fixed record: six fields of 4 bytes each, most significant
/// byte first, except `enable_push`, which is one byte (not 0 means on).
#[derive(Debug)]
pub struct SettingsFrame {
    pub header_table_size: usize,
    pub enable_push: bool,
    pub max_concurrent_streams: usize,
    pub initial_window_size: usize,
    pub max_frame_size: usize,
    pub max_header_list_size: usize,
}

/// The error text of a record too short to hold any setting.
pub open spec fn too_short_text() -> Seq<char> {
    "Settings frame must be at least 6 bytes"@
}

impl SettingsFrame {
    /// The inputs on which reading the record is defined: too short to hold any setting (an
    /// error), or long enough for all of them (21 bytes).
    pub open spec fn from_bytes_defined(bytes: Seq<u8>) -> bool {
        bytes.len() < 6 || bytes.len() >= 21
    }

    /// Reads the record: bytes 0..4 are the header table size, byte 4 the push flag, then the
    /// maximum number of streams, the initial window, the largest frame and the largest header
    /// list, 4 bytes each. Fewer than 6 bytes give "Settings frame must be at least 6 bytes".
    pub fn from_bytes(bytes: &[u8]) -> (r: Result<Self, String>)
        requires
            Self::from_bytes_defined(bytes@),
        ensures
            bytes@.len() < 6 <==> r is Err,
            r matches Err(e) ==> e@ == too_short_text(),
            r matches Ok(f) ==> {
                &&& f.header_table_size == be32_at(bytes@, 0)
                &&& f.enable_push == (bytes@[4] != 0)
                &&& f.max_concurrent_streams == be32_at(bytes@, 5)
                &&& f.initial_window_size == be32_at(bytes@, 9)
                &&& f.max_frame_size == be32_at(bytes@, 13)
                &&& f.max_header_list_size == be32_at(bytes@, 17)
            },
    {
        if bytes.len() < 6 {
            return Err("Settings frame must be at least 6 bytes".to_owned());
        }
        let header_table_size: usize = read_u32_be(bytes, 0) as usize;
        let enable_push = bytes[4] != 0;
        let max_concurrent_streams: usize = read_u32_be(bytes, 5) as usize;
        let initial_window_size: usize = read_u32_be(bytes, 9) as usize;
        let max_frame_size: usize = read_u32_be(bytes, 13) as usize;
        let max_header_list_size: usize = read_u32_be(bytes, 17) as usize;
        Ok(
            SettingsFrame {
                header_table_size,
                enable_push,
                max_concurrent_streams,
                initial_window_size,
                max_frame_size,
                max_header_list_size,
            },
        )
    }
}

} // verus!
