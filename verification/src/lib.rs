//! Desktop notification box: SSE stream parsing, notification models, filtering
//! rules and the stores behind the notification center.

pub mod text;

pub mod sse;

pub mod notice_model;

pub mod notice_sse;

pub mod notice_app;

mod clock;

pub mod fmt;

pub mod config;

pub mod model;

pub mod store;

pub mod popup;

pub mod notifier;

pub mod win32;
pub mod backend;
pub mod feed;

pub mod models;

pub mod app;
