//! Verified core of a form-driven remote shell client.
//!
//! Widgets react to pointer and keyboard input once per frame, and at most
//! one handler runs per frame on a copy of the display store. The session
//! manager emulates a persistent shell over one-shot command channels by
//! replaying directory changes, and drives handshakes and file transfers as
//! state machines whose steps the caller performs on the real transport.

pub mod geometry;
pub mod text;
pub mod id_map;
pub mod object_ids;

pub mod display;
pub mod logger;
pub mod widgets;
pub mod store;

pub mod session;
pub mod handlers;
pub mod user_interaction;
pub mod window_manager;
pub mod layout;
pub mod local_fs;
