//! Mappings between the Anthropic messages API and the native session API.

pub mod native;
pub mod native_stream;
pub mod protocol;
pub mod turn;

pub use native::{anthropic_to_native_parts, native_response_to_anthropic, NativeRequest};
pub use native_stream::{diff_turn_parts, message_delta_event, message_start_event};
pub use native_stream::{message_stop_event, stop_open_blocks, StreamTracker};
pub use native_stream::{MAX_POLLS, POLL_INTERVAL_MS};
pub use turn::collect_turn_parts;
