//! Client library for a public-transport realtime information service:
//! request builders that serialize filters into query strings, and a strict
//! decoder from JSON response bodies into typed domain structures.

pub mod decode;
pub mod error;
pub mod helpers;
pub mod json;
pub mod laws;
pub mod models;
pub mod response;
pub mod timestamp;
