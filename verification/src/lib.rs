//! A connector that registers with a cranker router over websockets and
//! relays the HTTP requests it receives to a target service.
pub mod backoff;
pub mod text;
pub mod request;
pub mod builder;
pub mod ids;
pub mod idle;
pub mod socket;
pub mod registration;
pub mod connector;
