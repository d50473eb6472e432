//! A verified client core for a remote code-execution service: it encodes a
//! request describing a program and its inputs into the backend's
//! length-prefixed wire format, frames it for transport, and decodes the
//! backend's compressed reply into plain output text or a typed error.
//!
//! The modules hold, leaves first:
//! - [`payload`]: one named field of a request, and the fixed field order of
//!   a whole request.
//! - [`codec`]: compression of an encoded request, with the framing bytes
//!   the backend does not want stripped from the stream.
//! - [`decode`]: decompression and classification of a reply, including the
//!   session-token stripping and the rejection-report pattern.
//! - [`model`]: the language records of the backend's catalog.
//! - [`catalog`]: the once-per-process lifecycle of the catalog cache.
//! - [`error`]: the error taxonomy, surfaced unchanged to every caller.
//!
//! The HTTP transport itself, being I/O, stays outside the library: callers
//! hand raw response bytes in and take plain values back.

pub mod catalog;
pub mod codec;
pub mod decode;
pub mod error;
pub mod model;
pub mod payload;
