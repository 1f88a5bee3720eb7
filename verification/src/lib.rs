//! Building blocks of a gRPC microservice kit: typed access to request
//! metadata, the decisions taken by the client and server middlewares, and
//! the server's configuration defaults.

pub mod number;
pub mod text;
pub mod metadata;
pub mod request_ext;
pub mod header;
pub mod middlewares;
pub mod server;
pub mod codegen;
