//! Screen mirroring over a byte stream: the frame delta protocol with its
//! colour conversion and compression, and the wire encoding of keyboard and
//! mouse input with key-repeat suppression.

pub mod auth;
pub mod bitmap;
pub mod capture;
pub mod command;
pub mod compress;
pub mod config;
pub mod convert;
pub mod delta;
pub mod error;
pub mod inject;
pub mod key_mouse;
pub mod pump;
pub mod session;
pub mod video;
pub mod viewer;
pub mod wire;
