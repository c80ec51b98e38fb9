//! Credential-management core of an authentication service.
//!
//! The library offers a storage-agnostic contract for user records
//! ([`UserStore`]), a reference in-memory backend ([`HashmapUserStore`]),
//! and a token-verification entry point ([`TokenVerifier`]). The HTTP
//! boundary around it translates these results into transport responses;
//! none of that surface lives here.

pub mod domain;
pub mod services;
pub mod token;

pub use domain::AuthError;
pub use domain::AuthError as UserStoreError;
pub use domain::User;
pub use domain::UserView;
pub use domain::UserStore;
pub use services::HashmapUserStore;
pub use token::TokenVerifier;
pub use token::VerifyTokenRequest;
