//! Authorization-server core of an identity provider.
//!
//! The crate implements the OAuth2 authorization-code grant, gated on a
//! physical presence check recorded out-of-band, and issues bearer tokens
//! redeemable by a fixed set of registered client applications.

pub mod consent;
pub mod error;
pub mod flow;
pub mod grant;
pub mod jwt;
pub mod numstr;
pub mod presence;
pub mod registry;
pub mod rng;
pub mod scope;
pub mod store;
pub mod token;
