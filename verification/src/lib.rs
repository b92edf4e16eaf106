//! The state and the decisions of the Fusion Wayland compositor.
//!
//! Everything here works on plain values. The event loop, the sockets, the
//! GPU and the Wayland objects live in the program around this crate: it
//! reports events as numbers and strings, and carries out what comes back.

pub mod backend;
pub mod connector;
pub mod cursor;
pub mod effects;
pub mod geometry;
pub mod globals;
pub mod input;
pub mod laws;
pub mod mapped;
pub mod output;
pub mod session;
pub mod slots;
pub mod socket;
pub mod state;
pub mod udev;
pub mod window;
pub mod window_manager;
