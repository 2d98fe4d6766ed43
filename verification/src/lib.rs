//! A small HTTP/1.1 file server, as a library of verified decisions: parsing a
//! request, resolving its target below the serving root, and writing the reply.

pub mod http;
pub mod path;
pub mod response;
pub mod server;
pub mod text;
pub mod world;
