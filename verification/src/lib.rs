//! Request-building rules shared by the S3 operations: argument validation,
//! header construction, byte ranges, multipart part lists and the detection
//! of the service's error documents.

pub mod bucket;
pub mod byte_range;
pub mod error;
pub mod header_ops;
pub mod http_items;
pub mod laws;
pub mod parts;
pub mod search;
pub mod service_error;
pub mod text;
pub mod validate;
