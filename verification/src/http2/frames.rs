pub mod frame;
pub mod data_frame;
pub mod headers_frame;
pub mod priority_frame;
pub mod rst_frame;
pub mod window_update_frame;
pub mod continuation_frame;
pub mod push_promise_frame;
pub mod ping_frame;
pub mod go_away_frame;
pub mod settings_frame;
