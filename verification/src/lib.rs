//! alavai: the logic of a lightweight Tailscale client for Linux.
//!
//! The library holds everything that computes: the HTTP/1.1 framing spoken to
//! `tailscaled` over its LocalAPI socket, the masked-prefs edits, the folding of
//! IPN-bus notifications into a live state, the tray and window models, and
//! the small rules of the command line, autostart entry and single-instance
//! guard. Sockets, processes, files, D-Bus and widgets stay with the program
//! that drives it.

pub mod text;
pub mod order;
pub mod http;
pub mod json;
pub mod localapi;
pub mod tray;
pub mod gui;
pub mod cli;
pub mod autostart;
pub mod instance;
