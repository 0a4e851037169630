//! A boundary contract between an HTTP transport and an application-level
//! service: a streaming message body made of shared byte chunks, and a
//! service interface describing how connections are established and how
//! requests on a connection are turned into responses.

pub mod body;
pub mod chunk;
pub mod service;

pub use body::Body;
pub use service::ConnectionOutcome;
pub use service::HttpService;
pub use service::Request;
pub use service::Response;
pub use service::serve_connection;
