//! A small verified core for a file-serving HTTP service.
//!
//! The service answers three kinds of requests: a fixed greeting on the
//! root path, a download of a named file whose bytes are decoded as UTF-8
//! and rendered in a diagnostic form, and an upload that streams a request
//! body into a named file through a batching buffer. Everything that
//! decides or computes lives here with a contract; the surrounding
//! process does the network and file I/O and hands plain values in.

pub mod handlers;
pub mod render;
pub mod response;
pub mod router;
pub mod sink;
pub mod text;
