//! A bridge that dispatches typed, named operations to an out-of-process
//! worker over a JSON-on-argv / JSON-on-stdout protocol, together with a
//! layered credential-resolution policy that decides whether the external
//! API dependency is usable.

pub mod bridge;
pub mod credential;
pub mod laws;
pub mod parse;
pub mod payload;
pub mod text;
pub mod types;
