//! Bearer-token authentication and policy-based authorization for actix-web
//! services, with the decision logic proved correct in Verus.

pub mod text;
pub mod json;
pub mod codec;
pub mod request;
pub mod jwt;
pub mod policy;
pub mod policies;
pub mod validator;
pub mod guard;
pub mod laws;

pub use validator::AuthValidator;
