use sha3::Digest;
use vstd::prelude::*;

verus! {

/// Iterations of the first, SHA-512 based, PBKDF2 layer.
pub const PBKDF2_ITERATIONS: u32 = 1_000_000;

/// Bytes in each salt.
pub const SALT_SIZE: usize = 64;

/// Bytes produced by each PBKDF2 layer.
pub const LAYER_SIZE: usize = 128;

/// Bytes in a derived key.
pub const OUTPUT_SIZE: usize = 96;

/// Bytes of a SHA3-512 digest.
pub const DIGEST_SIZE: usize = 64;

/// The `len` bytes of PBKDF2 with HMAC-SHA-512 over `password` and `salt`.
pub uninterp spec fn pbkdf2_hmac_sha512(
    password: Seq<u8>,
    salt: Seq<u8>,
    rounds: u32,
    len: nat,
) -> Seq<u8>;

/// The `len` bytes of PBKDF2 with HMAC-SHA-256 over `password` and `salt`.
pub uninterp spec fn pbkdf2_hmac_sha256(
    password: Seq<u8>,
    salt: Seq<u8>,
    rounds: u32,
    len: nat,
) -> Seq<u8>;

/// The SHA3-512 digest of `data`.
pub uninterp spec fn sha3_512_of(data: Seq<u8>) -> Seq<u8>;

/// Relies on `pbkdf2::pbkdf2_hmac_array::<sha2::Sha512, 128>`: PBKDF2 with
/// HMAC-SHA-512, whose bytes depend on the arguments alone. HMAC takes keys
/// of any length, so the call does not panic.
#[verifier::external_body]
fn pbkdf2_sha512(password: &[u8], salt: &[u8], rounds: u32) -> (r: [u8; LAYER_SIZE])
    ensures
        r@ == pbkdf2_hmac_sha512(password@, salt@, rounds, LAYER_SIZE as nat),
{
    pbkdf2::pbkdf2_hmac_array::<sha2::Sha512, LAYER_SIZE>(password, salt, rounds)
}

/// Relies on `pbkdf2::pbkdf2_hmac_array::<sha2::Sha256, 128>`: PBKDF2 with
/// HMAC-SHA-256, whose bytes depend on the arguments alone. HMAC takes keys
/// of any length, so the call does not panic.
#[verifier::external_body]
fn pbkdf2_sha256(password: &[u8], salt: &[u8], rounds: u32) -> (r: [u8; LAYER_SIZE])
    ensures
        r@ == pbkdf2_hmac_sha256(password@, salt@, rounds, LAYER_SIZE as nat),
{
    pbkdf2::pbkdf2_hmac_array::<sha2::Sha256, LAYER_SIZE>(password, salt, rounds)
}

/// Relies on `sha3::Sha3_512::digest`: the 64-byte SHA3-512 digest, which
/// depends on the data alone.
#[verifier::external_body]
fn sha3_512(data: &[u8]) -> (r: [u8; DIGEST_SIZE])
    ensures
        r@ == sha3_512_of(data@),
{
    sha3::Sha3_512::digest(data).into()
}

/// The first layer: PBKDF2-HMAC-SHA-512 of the entropy under the first salt,
/// with `rounds` iterations.
pub open spec fn layer_one(entropy: Seq<u8>, salt1: Seq<u8>, rounds: u32) -> Seq<u8> {
    pbkdf2_hmac_sha512(entropy, salt1, rounds, LAYER_SIZE as nat)
}

/// The second layer: PBKDF2-HMAC-SHA-256 of the first layer under the second
/// salt, with half the iterations.
pub open spec fn layer_two(entropy: Seq<u8>, salt1: Seq<u8>, salt2: Seq<u8>, rounds: u32) -> Seq<
    u8,
> {
    pbkdf2_hmac_sha256(layer_one(entropy, salt1, rounds), salt2, rounds / 2, LAYER_SIZE as nat)
}

/// Hash A: SHA3-512 over both layers, in order.
pub open spec fn hash_a(entropy: Seq<u8>, salt1: Seq<u8>, salt2: Seq<u8>, rounds: u32) -> Seq<u8> {
    sha3_512_of(layer_one(entropy, salt1, rounds) + layer_two(entropy, salt1, salt2, rounds))
}

/// Hash B: SHA3-512 over hash A and the two salts, in order.
pub open spec fn hash_b(entropy: Seq<u8>, salt1: Seq<u8>, salt2: Seq<u8>, rounds: u32) -> Seq<u8> {
    sha3_512_of(hash_a(entropy, salt1, salt2, rounds) + salt1 + salt2)
}

/// The 96 output bytes: the 64 bytes of `a` and the first 32 of `b`.
pub open spec fn combined_output(a: Seq<u8>, b: Seq<u8>) -> Seq<u8> {
    a.take(64) + b.take(32)
}

/// The key derived from `entropy` under `salt1` and `salt2`, with `rounds`
/// iterations in the first layer.
pub open spec fn derived_key_with(
    entropy: Seq<u8>,
    salt1: Seq<u8>,
    salt2: Seq<u8>,
    rounds: u32,
) -> Seq<u8> {
    combined_output(
        hash_a(entropy, salt1, salt2, rounds),
        hash_b(entropy, salt1, salt2, rounds),
    )
}

/// The key derived from `entropy` under `salt1` and `salt2` at full strength.
pub open spec fn derived_key(entropy: Seq<u8>, salt1: Seq<u8>, salt2: Seq<u8>) -> Seq<u8> {
    derived_key_with(entropy, salt1, salt2, PBKDF2_ITERATIONS)
}

/// `a` followed by `b`.
pub fn concat_bytes(a: &[u8], b: &[u8]) -> (r: Vec<u8>)
    ensures
        r@ == a@ + b@,
{
    let mut out: Vec<u8> = Vec::new();
    out.extend_from_slice(a);
    out.extend_from_slice(b);
    out
}

/// The derived key's bytes from the two final digests.
pub fn combine_digests(a: &[u8; DIGEST_SIZE], b: &[u8; DIGEST_SIZE]) -> (r: [u8; OUTPUT_SIZE])
    ensures
        r@ == combined_output(a@, b@),
{
    let mut out: [u8; OUTPUT_SIZE] = [0u8; OUTPUT_SIZE];
    let mut i: usize = 0;
    while i < OUTPUT_SIZE
        invariant
            i <= OUTPUT_SIZE,
            forall|j: int| 0 <= j < i ==> out@[j] == combined_output(a@, b@)[j],
        decreases OUTPUT_SIZE - i,
    {
        if i < DIGEST_SIZE {
            out[i] = a[i];
        } else {
            out[i] = b[i - DIGEST_SIZE];
        }
        i = i + 1;
    }
    proof {
        assert(out@ == combined_output(a@, b@));
    }
    out
}

/// Derives the 96-byte key from `entropy` and two salts with `rounds`
/// iterations in the first PBKDF2 layer and half as many in the second,
/// then two SHA3-512 rounds whose digests are cut and joined.
pub fn derive_key_with(
    entropy: &[u8],
    salt1: &[u8; SALT_SIZE],
    salt2: &[u8; SALT_SIZE],
    rounds: u32,
) -> (r: [u8; OUTPUT_SIZE])
    ensures
        r@ == derived_key_with(entropy@, salt1@, salt2@, rounds),
{
    let layer1 = pbkdf2_sha512(entropy, salt1, rounds);
    let layer2 = pbkdf2_sha256(&layer1, salt2, rounds / 2);
    let combined = concat_bytes(&layer1, &layer2);
    let hash1 = sha3_512(combined.as_slice());
    let salts = concat_bytes(salt1, salt2);
    let tail = concat_bytes(&hash1, salts.as_slice());
    proof {
        assert(tail@ == hash1@ + salt1@ + salt2@);
    }
    let hash2 = sha3_512(tail.as_slice());
    combine_digests(&hash1, &hash2)
}

/// Derives the 96-byte key at full strength: 1,000,000 iterations of
/// PBKDF2-HMAC-SHA-512, then 500,000 of PBKDF2-HMAC-SHA-256.
pub fn derive_key(entropy: &[u8], salt1: &[u8; SALT_SIZE], salt2: &[u8; SALT_SIZE]) -> (r: [u8;
    OUTPUT_SIZE])
    ensures
        r@ == derived_key(entropy@, salt1@, salt2@),
{
    derive_key_with(entropy, salt1, salt2, PBKDF2_ITERATIONS)
}

/// The derivation is a function of its inputs: the same entropy and salts
/// always give the same key.
pub proof fn lemma_derive_deterministic(
    entropy1: Seq<u8>,
    salt1a: Seq<u8>,
    salt2a: Seq<u8>,
    entropy2: Seq<u8>,
    salt1b: Seq<u8>,
    salt2b: Seq<u8>,
    rounds: u32,
)
    requires
        entropy1 == entropy2,
        salt1a == salt1b,
        salt2a == salt2b,
    ensures
        derived_key_with(entropy1, salt1a, salt2a, rounds) == derived_key_with(
            entropy2,
            salt1b,
            salt2b,
            rounds,
        ),
{
}

} // verus!
