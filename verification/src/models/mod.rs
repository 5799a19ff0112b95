//! Data models: notifications and the SSE event envelope.

pub mod notification;
