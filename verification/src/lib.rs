//! How a session of the goose agent looks after itself.
//!
//! A session is a conversation, and some of it may be taken away from the agent:
//! when the context runs full, when the user clears it, when a request turns out
//! too large. Nothing is deleted. [`compaction_event`] records what was taken,
//! and when; [`ops_archive`] and [`ops_status`] show it to the user.
//!
//! The model may ask for a compaction itself ([`session_manager_ext`],
//! [`session_requests`], [`ops_session_request`]), provided that the user lets it
//! ([`capabilities`], [`ops_capabilities`]). A request that the provider refuses
//! for its size is answered by [`ops_request_size`]. [`retry`] and
//! [`stream_util`] say when a request that failed is sent again, and when one
//! that hangs is given up on.
//!
//! The functions here work on values that are handed to them and answer with
//! values: talking to providers and to the store of sessions is left to the
//! caller.

pub mod capabilities;
pub mod compaction_event;
pub mod conversation;
pub mod duration;
pub mod events;
pub mod extension_data;
pub mod ids;
pub mod json;
pub mod ops_archive;
pub mod ops_capabilities;
pub mod ops_request_size;
pub mod ops_session_request;
pub mod ops_status;
pub mod request_size;
pub mod retry;
pub mod session;
pub mod session_manager_ext;
pub mod session_requests;
pub mod state_machine;
pub mod stream_util;
pub mod text;
