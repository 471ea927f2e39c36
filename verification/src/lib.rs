//! Parsers for a minimal HTTP client: plain `http://` URLs and HTTP/1.1 responses.

pub mod client;
pub mod error;
pub mod http;
pub mod text;
pub mod url;
