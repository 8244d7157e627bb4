//! Credentials and sessions for a two-sided quest board: password digests,
//! role-bound signed tokens, token-pair issue and refresh, and request
//! authorization, each stated and proved against its contract.
pub mod argon2_hashing;
pub mod authentication;
pub mod claims;
pub mod cookies;
pub mod hex;
pub mod jwt_authentication;
pub mod middlewares;
pub mod quest_statuses;
pub mod repositories;
pub mod stage;
pub mod subject;
pub mod text;
pub mod usecases;
