//! Core of a URL-shortening service: input validation, short-code
//! generation, an in-memory mapping store with a key-uniqueness invariant,
//! and the shortening / resolution services on top of them.

pub mod codes;
pub mod errors;
pub mod service;
pub mod store;
pub mod urls;
