//! Core of a URL-shortening service: request validation, short-code
//! allocation, an in-memory mapping store with a uniqueness constraint,
//! the expiration policy, and the resolution path that counts visits and
//! lazily reclaims expired rows.

pub mod codes;
pub mod db;
pub mod error;
pub mod laws;
pub mod models;
pub mod service;
