//! Control plane that lets short-lived command-line invocations drive one
//! long-lived browser automation session.
//!
//! The library holds the logic of the system, each part with its contract:
//! the wire protocol and its framing, the error normalizer, the polling
//! decisions of the wait engine, the video artifact lifecycle, the daemon's
//! session state, the client's connect-or-spawn decisions and bootstrap
//! handshake, the injected page scripts and the decoding of their results.
//! Everything that performs I/O (sockets, processes, the browser engine)
//! lives in the program around it and hands plain values in and out.
pub mod protocol;
pub mod text;
pub mod errors;
pub mod wait;
pub mod video;
pub mod session;
pub mod bootstrap;
pub mod scripts;
pub mod decode;
