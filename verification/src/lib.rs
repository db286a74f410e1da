//! Verified rules of a live-streaming toolkit: tickets, source specifiers,
//! encode ladders, link measurements and the state machines behind its windows.

pub mod args;
pub mod backend;
pub mod call;
pub mod call_window;
pub mod devices;
pub mod encoding;
pub mod endpoint;
pub mod features;
pub mod gles;
pub mod live;
pub mod panel;
pub mod pi_zero;
pub mod pull;
pub mod qr;
pub mod record;
pub mod relay;
pub mod rendition;
pub mod room;
pub mod run;
pub mod scan;
pub mod source;
pub mod source_spec;
pub mod text;
pub mod ticket;
pub mod time;
pub mod transport;
pub mod ui;
pub mod util;
pub mod watch;
