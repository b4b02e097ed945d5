//! The native call surface: a typed, fallible interface to the driver
//! state, together with the error taxonomy shared by every call.

pub mod cl;
pub mod error;
pub mod host;
pub mod source;
