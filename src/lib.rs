//! A keyed user-record store: an in-process cache in front of a durable
//! document store, and authentication in front of both.

pub mod auth;
pub mod base64;
pub mod cache;
pub mod record;
pub mod service;
