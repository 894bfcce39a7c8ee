//! A display backend on leased devices: sessions with the graphics controller,
//! rendering on the leased card, and input from the granted devices.

pub mod backend;
pub mod clipboard;
pub mod cursor;
pub mod eventloop;
pub mod flags;
pub mod format;
pub mod frame;
pub mod gl;
pub mod handler;
pub mod injected;
pub mod keys;
pub mod lease;
pub mod path;
pub mod pixel;
pub mod registry;
pub mod renderer;
pub mod rotation;
pub mod sgc;
pub mod text;
pub mod touch;
