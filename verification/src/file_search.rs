//! Opaque signed tokens for file-detail links.

pub mod token;
