//! The encoding and assembly core of an e-mail composition library: RFC 2047
//! encoded words for header text, and the rendering of multi-alternative
//! templates into bodies with content-identified embedded resources.
pub mod b64;
pub mod encoded_word;
pub mod engine;
pub mod error;
pub mod qcodec;
pub mod resource;
pub mod template;
pub mod text;
