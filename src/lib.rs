//! A CoAP command-line client's core: URL resolution, content-format
//! translation, request assembly and response decoding.

pub mod error;
pub mod content_format;
pub mod resolver;
pub mod request;
pub mod dispatch;
