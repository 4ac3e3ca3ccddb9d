//! A static file serving core: an access policy over decoded request paths,
//! a request router, and a directory listing assembler.
//!
//! The crate decides, for a configuration and a decoded request path, whether
//! and how the named file or directory may be served (directory listing,
//! Markdown, verbatim text, raw bytes, or not at all), and turns the decision
//! into a rendered page through a pluggable [`Renderer`]. Reading the
//! filesystem and speaking HTTP are left to the embedding server, which hands
//! this crate plain values: path segments, metadata, file contents.

pub mod archivist;
pub mod config;
pub mod entry;
pub mod listing;
pub mod renderer;
pub mod strutil;

pub use archivist::Archivist;
pub use config::AccessMethod;
pub use config::Config;
pub use entry::Entry;
pub use renderer::RenderResult;
pub use renderer::Renderer;
