//! The event and state core of a terminal Matrix chat client: message trees,
//! read receipts, the per-room chat model, the room cache, notification
//! gating and the small state machines around them, with their contracts.

pub mod app;
pub mod chat;
pub mod clock;
pub mod delaytimer;
pub mod display;
pub mod emoji;
pub mod event;
pub mod fanout;
pub mod handler;
pub mod key;
pub mod keycombo;
pub mod layout;
pub mod listing;
pub mod matrix;
pub mod message;
pub mod message_laws;
pub mod mime;
pub mod notify;
pub mod page_laws;
pub mod react;
pub mod reaction;
pub mod receipts;
pub mod render;
pub mod roomcache;
pub mod settings;
pub mod spawn;
pub mod text;
pub mod timeline;
pub mod tree_laws;
pub mod username;
pub mod views;
pub mod widgets;

pub use keycombo::KeyCombo;
pub use text::{limit_list, pretty_list, truncate};
