//! Request handling, response building, account data and credential helpers
//! of a small HTTP service, with their behaviour stated and proved.

pub mod handler;
pub mod headers;
pub mod http;
pub mod query;
pub mod routes;
pub mod security;
pub mod text;
pub mod user;
