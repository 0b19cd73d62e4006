//! Core of a social blogging backend: stateless bearer-token issuance and
//! verification, the resource model (users, profiles, articles, tags,
//! favorites, comments) with its consistency rules, and the request handlers
//! that tie the two together.
//!
//! The handlers operate on an explicit [`store::Store`] value that models the
//! relational state; token signing, password hashing and slug generation call
//! into outside crates through a small set of trusted wrappers.

pub mod seq_util;
pub mod numstr;
pub mod dto;
pub mod query;
pub mod store;
pub mod token;
pub mod user;
pub mod article;
pub mod comment;
