pub mod base64;
pub mod configuration;
pub mod rsa_functions;
pub mod sessions;
pub mod table;
pub mod verification;
