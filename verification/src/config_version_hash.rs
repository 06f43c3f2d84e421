use vstd::prelude::*;
use soroban_sdk::Env;

verus! {

/// The SHA-256 digest of a byte string.
pub uninterp spec fn sha256_digest(data: Seq<u8>) -> Seq<u8>;

/// Hashes `data` with the host's SHA-256: soroban_sdk's `Crypto::sha256`
/// over `Bytes::from_slice(env, data)`, the 32-byte `Hash` turned into a
/// vector. Claimed: the result is the SHA-256 digest of `data`, 32 bytes
/// long, for any environment. Not claimed: that the host's resource budget
/// suffices for `data` (when it does not, the host aborts the call).
#[verifier::external_body]
fn host_sha256(env: &Env, data: &[u8]) -> (digest: Vec<u8>)
    ensures
        digest@ == sha256_digest(data@),
        digest@.len() == 32,
{
    let bytes = soroban_sdk::Bytes::from_slice(env, data);
    env.crypto().sha256(&bytes).to_array().to_vec()
}

/// The version hash of a configuration: the SHA-256 digest of its
/// serialised threshold parameters.
pub fn compute_config_version_hash(env: &Env, config_bytes: &Vec<u8>) -> (hash: Vec<u8>)
    ensures
        hash@ == sha256_digest(config_bytes@),
        hash@.len() == 32,
{
    host_sha256(env, config_bytes.as_slice())
}

/// The version hash of a given serialised configuration snapshot.
pub fn get_config_version_hash(env: &Env, config_bytes: &Vec<u8>) -> (hash: Vec<u8>)
    ensures
        hash@ == sha256_digest(config_bytes@),
        hash@.len() == 32,
{
    compute_config_version_hash(env, config_bytes)
}

} // verus!
