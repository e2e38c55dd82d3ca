//! Helper tables of foreign calls.

pub mod sha256_helper;
