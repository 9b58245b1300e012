//! Generation of application secrets from machine entropy, and the upsert of
//! such a secret into a `KEY=VALUE` configuration file.

pub mod errors;
pub mod derivation;
pub mod entropy;
pub mod env_writer;
pub mod secret;
pub mod secret_generator;
