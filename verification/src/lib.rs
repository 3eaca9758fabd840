//! A verified core for driving the compiled youtubei.js units: the error type,
//! the byte protocol between Rust and the native driver, the session owner, and
//! the host operations that the native code asks Rust to perform.
pub mod args;
pub mod dispatch;
pub mod error;
pub mod fetch;
pub mod headers;
pub mod invocation;
pub mod location;
pub mod query;
pub mod text;
pub mod transport;
pub mod youtube;

pub use error::Error;
pub use invocation::Invocation;
pub use transport::Transport;
pub use youtube::{NativeUnit, OpenStep, Opening, Video, Youtube};
