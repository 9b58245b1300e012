use crate::derivation::{
    derive_key_with, derived_key, derived_key_with, OUTPUT_SIZE, PBKDF2_ITERATIONS, SALT_SIZE,
};
use crate::entropy::{collect_entropy, entropy_layout, fill_random, RANDOM_SIZE};
use crate::errors::SecretError;
use crate::secret::{all_hex, is_hex_char, is_secret_text, AppSecret};
use vstd::prelude::*;

verus! {

/// The lowercase hexadecimal digit for `d`, which is below 16.
pub open spec fn hex_digit(d: int) -> char {
    seq!['0', '1', '2', '3', '4', '5', '6', '7', '8', '9', 'a', 'b', 'c', 'd', 'e', 'f'][d]
}

/// `bytes` in lowercase hexadecimal, two digits per byte, high nibble first.
pub open spec fn hex_of(bytes: Seq<u8>) -> Seq<char>
    decreases bytes.len(),
{
    if bytes.len() == 0 {
        Seq::empty()
    } else {
        let b = bytes.last() as int;
        hex_of(bytes.drop_last()) + seq![hex_digit(b / 16), hex_digit(b % 16)]
    }
}

/// Relies on `hex::encode`: lowercase hexadecimal, two digits per byte, the
/// high nibble first.
#[verifier::external_body]
fn hex_encode(bytes: &[u8]) -> (r: String)
    ensures
        r@ == hex_of(bytes@),
{
    hex::encode(bytes)
}

/// The hexadecimal form of `bytes` is two digits per byte, all hexadecimal.
pub proof fn lemma_hex_of_shape(bytes: Seq<u8>)
    ensures
        hex_of(bytes).len() == 2 * bytes.len(),
        all_hex(hex_of(bytes)),
    decreases bytes.len(),
{
    if bytes.len() > 0 {
        let b = bytes.last() as int;
        lemma_hex_of_shape(bytes.drop_last());
        let h = hex_of(bytes);
        let prev = hex_of(bytes.drop_last());
        assert forall|i: int| 0 <= i < h.len() implies #[trigger] is_hex_char(h[i]) by {
            if i < prev.len() {
                assert(h[i] == prev[i]);
            } else {
                assert(h[i] == hex_digit(b / 16) || h[i] == hex_digit(b % 16));
            }
        }
    }
}

/// A derived key in its textual form: 192 lowercase hexadecimal digits.
pub fn encode_secret(key: &[u8; OUTPUT_SIZE]) -> (r: AppSecret)
    ensures
        r@ == hex_of(key@),
        is_secret_text(r@),
{
    let text = hex_encode(key);
    proof {
        lemma_hex_of_shape(key@);
    }
    AppSecret::new_unchecked(text)
}

/// The secret for `entropy` under the two salts, with `rounds` iterations in
/// the first derivation layer: the key in lowercase hexadecimal.
pub fn secret_from_parts(
    entropy: &[u8],
    salt1: &[u8; SALT_SIZE],
    salt2: &[u8; SALT_SIZE],
    rounds: u32,
) -> (r: AppSecret)
    ensures
        r@ == hex_of(derived_key_with(entropy@, salt1@, salt2@, rounds)),
        is_secret_text(r@),
{
    let key = derive_key_with(entropy, salt1, salt2, rounds);
    encode_secret(&key)
}

/// Generates application secrets from machine entropy and random salts.
pub struct SecretGenerator;

impl SecretGenerator {
    /// A generator.
    pub fn new() -> (r: SecretGenerator) {
        SecretGenerator
    }

    /// 32 cryptographically secure random bytes, or the random source's
    /// error.
    pub fn get_random_bytes(&self) -> (r: Result<[u8; RANDOM_SIZE], SecretError>)
        ensures
            r is Err ==> r->Err_0 is RandomSource,
    {
        let mut bytes: [u8; RANDOM_SIZE] = [0u8; RANDOM_SIZE];
        match fill_random(&mut bytes) {
            Ok(()) => Ok(bytes),
            Err(e) => Err(SecretError::RandomSource(e)),
        }
    }

    /// A fresh 64-byte salt from the secure random source, or its error.
    pub fn generate_salt(&self) -> (r: Result<[u8; SALT_SIZE], SecretError>)
        ensures
            r is Err ==> r->Err_0 is RandomSource,
    {
        let mut salt: [u8; SALT_SIZE] = [0u8; SALT_SIZE];
        match fill_random(&mut salt) {
            Ok(()) => Ok(salt),
            Err(e) => Err(SecretError::RandomSource(e)),
        }
    }

    /// Generates a secret from the given entropy: draws two fresh salts,
    /// derives the key with `rounds` iterations in the first layer and
    /// renders it in hexadecimal. Fails only where the random source does.
    pub fn generate_from_entropy(&self, entropy: &[u8], rounds: u32) -> (r: Result<
        AppSecret,
        SecretError,
    >)
        ensures
            r matches Ok(s) ==> is_secret_text(s@),
            r matches Ok(s) ==> exists|salt1: Seq<u8>, salt2: Seq<u8>|
                salt1.len() == SALT_SIZE && salt2.len() == SALT_SIZE && s@ == hex_of(
                    #[trigger] derived_key_with(entropy@, salt1, salt2, rounds),
                ),
            r is Err ==> r->Err_0 is RandomSource,
    {
        let salt1 = match self.generate_salt() {
            Ok(s) => s,
            Err(e) => {
                return Err(e);
            },
        };
        let salt2 = match self.generate_salt() {
            Ok(s) => s,
            Err(e) => {
                return Err(e);
            },
        };
        Ok(secret_from_parts(entropy, &salt1, &salt2, rounds))
    }

    /// Generates a secret for the process `process_id`: collects entropy,
    /// draws two salts, derives the key at full strength and renders it in
    /// hexadecimal. Fails with [`SecretError::NoMacAddress`] where no
    /// hardware address can be had (tested before anything else), with
    /// [`SecretError::ClockOutOfRange`] where the clock cannot be read as a
    /// timestamp, and with [`SecretError::RandomSource`] where the random
    /// source fails; every error is passed on unchanged.
    pub fn generate(&self, process_id: u32) -> (r: Result<AppSecret, SecretError>)
        ensures
            r matches Ok(s) ==> is_secret_text(s@),
            r matches Ok(s) ==> exists|
                mac: Seq<u8>,
                nanos: Option<i64>,
                micros: i64,
                random: Seq<u8>,
                host: Option<Seq<u8>>,
                salt1: Seq<u8>,
                salt2: Seq<u8>,
            |
                random.len() == RANDOM_SIZE && salt1.len() == SALT_SIZE && salt2.len()
                    == SALT_SIZE && s@ == hex_of(
                    #[trigger] derived_key(
                        entropy_layout(mac, nanos, micros, process_id, random, host),
                        salt1,
                        salt2,
                    ),
                ),
            r is Err ==> r->Err_0 is NoMacAddress || r->Err_0 is ClockOutOfRange
                || r->Err_0 is RandomSource,
    {
        let entropy = match collect_entropy(process_id) {
            Ok(e) => e,
            Err(x) => {
                return Err(x);
            },
        };
        let r = self.generate_from_entropy(entropy.as_slice(), PBKDF2_ITERATIONS);
        proof {
            if r is Ok {
                let s = r->Ok_0;
                let (mac, nanos, micros, random, host) = choose|
                    mac: Seq<u8>,
                    nanos: Option<i64>,
                    micros: i64,
                    random: Seq<u8>,
                    host: Option<Seq<u8>>,
                |
                    random.len() == RANDOM_SIZE && entropy@ == #[trigger] entropy_layout(
                        mac,
                        nanos,
                        micros,
                        process_id,
                        random,
                        host,
                    );
                let (salt1, salt2) = choose|salt1: Seq<u8>, salt2: Seq<u8>|
                    salt1.len() == SALT_SIZE && salt2.len() == SALT_SIZE && s@ == hex_of(
                        #[trigger] derived_key_with(entropy@, salt1, salt2, PBKDF2_ITERATIONS),
                    );
                assert(s@ == hex_of(
                    derived_key(
                        entropy_layout(mac, nanos, micros, process_id, random, host),
                        salt1,
                        salt2,
                    ),
                ));
            }
        }
        r
    }
}

impl Default for SecretGenerator {
    fn default() -> (r: SecretGenerator) {
        SecretGenerator::new()
    }
}

} // verus!
