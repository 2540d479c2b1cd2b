//! The URL under which the server exposes a server function:
//! `/api/<fn_name><hash>`, where the hash is the xxh64 (seed 0) of
//! `<manifest_dir>:alps_ui::api::<module>`.

use vstd::prelude::*;
use crate::format::{decimal, push_decimal};

verus! {

/// The xxh64 digest of `data` with `seed`, as `xxhash_rust` computes it.
pub uninterp spec fn xxh64_digest(data: Seq<u8>, seed: u64) -> u64;

/// Hashes `data` with `xxhash_rust::const_xxh64::xxh64`; the contract names
/// the digest and says nothing more of it.
#[verifier::external_body]
fn xxh64(data: &[u8], seed: u64) -> (h: u64)
    ensures
        h == xxh64_digest(data@, seed),
{
    xxhash_rust::const_xxh64::xxh64(data, seed)
}

/// The text whose hash names the endpoints of the server functions of
/// `module`.
pub open spec fn hash_input(manifest_dir: Seq<char>, module: Seq<char>) -> Seq<char> {
    manifest_dir + ":alps_ui::api::"@ + module
}

/// The URL of the server function `fn_name`, given the hash of its module.
pub open spec fn endpoint_url_view(fn_name: Seq<char>, hash: u64) -> Seq<char> {
    "/api/"@ + fn_name + decimal(hash as nat)
}

/// The text hashed for the server functions of `module`.
pub fn endpoint_hash_input(manifest_dir: &str, module: &str) -> (r: String)
    ensures
        r@ == hash_input(manifest_dir@, module@),
{
    let mut r = manifest_dir.to_owned();
    r.append(":alps_ui::api::");
    r.append(module);
    r
}

/// The URL of the server function `fn_name` whose module hashes to `hash`.
pub fn endpoint_url(fn_name: &str, hash: u64) -> (r: String)
    ensures
        r@ == endpoint_url_view(fn_name@, hash),
{
    let mut r = "/api/".to_owned();
    r.append(fn_name);
    push_decimal(&mut r, hash);
    r
}

/// The URL under which the server exposes the server function `fn_name`
/// of `module`, for a crate built in `manifest_dir`.
pub fn server_fn_url(manifest_dir: &str, module: &str, fn_name: &str) -> (r: String)
    ensures
        r@ == endpoint_url_view(
            fn_name@,
            xxh64_digest(vstd::utf8::encode_utf8(hash_input(manifest_dir@, module@)), 0),
        ),
{
    let input = endpoint_hash_input(manifest_dir, module);
    let hash = xxh64(input.as_str().as_bytes(), 0);
    endpoint_url(fn_name, hash)
}

} // verus!
