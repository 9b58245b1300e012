use vstd::prelude::*;

verus! {

/// `std::io::Error`, carried opaquely inside [`SecretError::EnvFileAccess`].
#[verifier::external_type_specification]
#[verifier::external_body]
pub struct ExIoError(std::io::Error);

/// `rand::Error`, carried opaquely inside [`SecretError::RandomSource`].
#[verifier::external_type_specification]
#[verifier::external_body]
pub struct ExRandError(rand::Error);

/// Every way in which generating or storing a secret can fail.
#[derive(Debug)]
pub enum SecretError {
    /// No network interface with a hardware address could be found.
    NoMacAddress,
    /// Reading or writing the configuration file failed.
    EnvFileAccess(std::io::Error),
    /// The clock reads before the Unix epoch, or past what a timestamp can
    /// hold.
    ClockOutOfRange,
    /// The secure random source failed.
    RandomSource(rand::Error),
    /// A string that should hold a secret is not 192 hexadecimal digits.
    InvalidFormat,
    /// Any other failure, with a description.
    Other(String),
}

} // verus!
