//! Anonymous tokens over the Ristretto group: an issuer signs a blinded group
//! element, the client unblinds the answer into a token, and the issuer later
//! recognises the token without being able to tell which request it answers.

pub mod error;
pub mod constant_time;
pub mod scalar;
pub mod group;
pub mod random;
pub mod codec;
pub mod tokens;
pub mod keys;
pub mod laws;
pub mod api;
