//! Request-execution core of an API-testing tool: method and header rules,
//! multipart form planning, timing breakdown and response normalization.

pub mod error;
pub mod headers;
pub mod method;
pub mod multipart;
pub mod request;
pub mod response;
pub mod text;
pub mod timing;
