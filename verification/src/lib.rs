//! Rules of the ideas board: validation, permissions, listing order,
//! rate limiting and migration planning, verified with Verus.

pub mod assets;
pub mod config;
pub mod domain;
pub mod listing;
pub mod migrations;
pub mod policy;
pub mod rate_limit;
pub mod schema;
pub mod seed;
pub mod text;
pub mod validate;
pub mod web;
