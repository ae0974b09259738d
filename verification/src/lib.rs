//! Reliable, recoverable input transport for a shared keyboard and mouse.

pub mod bytes;

pub mod agreement;
pub mod diagnostics;
pub mod driver;
pub mod driver_laws;
pub mod engine;
pub mod event;
pub mod fault;
pub mod frame;
pub mod gate;
pub mod injector;
pub mod injector_laws;
pub mod input;
pub mod keyboard;
pub mod keyboard_laws;
pub mod lifecycle;
pub mod lifecycle_laws;
pub mod motion;
pub mod motion_laws;
pub mod output_laws;
pub mod peer;
pub mod policy;
pub mod protocol;
pub mod recovery;
pub mod recovery_laws;
pub mod session;
pub mod session_laws;
pub mod text;
pub mod timing;
pub mod token;
pub mod windows;
pub mod wire_laws;
