//! The app that shares a server: its screens, and its connection to the proxy.

pub mod consts;
pub mod draw;
pub mod geometry;
pub mod layout;
pub mod layout_laws;
pub mod lan;
pub mod menu;
pub mod menu_laws;
pub mod render_laws;
pub mod screen_laws;
pub mod server;
pub mod server_laws;
pub mod tui_events;
pub mod tui_render;
pub mod types;
