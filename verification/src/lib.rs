//! Bluetooth Serial Port Profile to systemd getty bridge: the verified core.
//!
//! Every rule of the daemon that can be written from plain values to plain
//! values stands here. What touches a socket, a tty, a process or D-Bus is
//! driven by the state machines of this crate and lives in the program around it.

pub mod buffer;
pub mod errno;
pub mod profile;
pub mod rfcomm;
pub mod serve;
pub mod session_proxy;
pub mod shuttle;
pub mod shuttle_laws;
pub mod systemd;
pub mod text;
