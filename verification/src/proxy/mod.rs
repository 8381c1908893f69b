//! Decisions of the bridge between its clients and the upstream server: where
//! to send, how to read an answer, when to retry and which session to use.

pub mod messages;
pub mod models;
pub mod reply;
pub mod session;
pub mod stream_task;
pub mod upstream;
