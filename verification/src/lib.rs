//! Ingestion rules for device image uploads: which path segments are safe,
//! how stored files are named and laid out, how an upload is answered, and
//! how a websocket session moves from frame to frame.

pub mod naming;
pub mod path;
pub mod session;
pub mod storage;
pub mod upload;
