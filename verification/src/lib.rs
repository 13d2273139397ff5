//! Verification of bearer tokens against a cached, periodically refreshed set
//! of an identity provider's public signing keys.

pub mod cache_control;
pub mod directive;
pub mod header_parser;
pub mod jwk;
pub mod jwk_auth;
pub mod jwk_verifier;
pub mod jwt;
pub mod text;
