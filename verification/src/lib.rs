//! A static-file server core: an in-memory file cache with size accounting and
//! age-based eviction, and the request dispatch that decides how each request
//! is answered.

pub mod text;
pub mod clock;
pub mod cache_model;
pub mod paths;
pub mod mime;
pub mod loading;
pub mod cache;
pub mod config;
pub mod response;
pub mod routes;
pub mod server;
