//! Packaging toolkit for device-distributable program images.
//!
//! The crate turns freshly linked executable images into device containers and
//! can derive a payload-stripped debug companion image.  Its verified core is
//! split into:
//!
//! - [`bytes`]: little/big-endian word access over byte vectors;
//! - [`elf`]: the debug-split transform over executable images;
//! - [`events`]: decoding of the build tool's event stream;
//! - [`paths`]: path arithmetic over byte strings;
//! - [`resolve`]: binding artifacts to packages and per-target configuration;
//! - [`pipeline`]: the two packaging pipelines as verified plan generators.

pub mod bytes;
pub mod elf;
pub mod events;
pub mod paths;
pub mod pipeline;
pub mod resolve;
