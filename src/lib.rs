//! Inject one function into a child process and call it over a private
//! Unix-domain socket.
//!
//! The library holds the logic both halves share: the frame format on the
//! wire, the configuration handed from controller to injected runtime, the
//! identity check on each connection, and the decisions of the serve loop.
mod error;
pub mod config;
pub mod example;
pub mod gate;
pub mod identity;
pub mod serve;
pub mod wire;

pub use config::LogMode;
pub use error::ChookError;
pub use example::{Arg, Ret};
