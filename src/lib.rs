//! Request handling for a small file-upload server: routing, static content
//! types, filename extraction from multipart bodies and storage naming.

pub mod text;
pub mod multipart;
pub mod content_type;
pub mod storage;
pub mod server;
