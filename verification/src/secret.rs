//! Secret-key material selection: which bytes seed the application's
//! secret key. The digest and the key derivation themselves are opaque
//! byte-producing collaborators; this module decides what they are fed.

use vstd::prelude::*;
use vstd::string::StringSliceAdditionalSpecFns;

verus! {

/// The application key that seeds the fallback digest when no checksum
/// is configured: the application's name and version joined by `@`.
pub fn app_key(name: &str, version: &str) -> (r: String)
    ensures
        r@ == name@ + "@"@ + version@,
{
    let mut key = name.to_owned();
    key.append("@");
    key.append(version);
    key
}

/// Initializes the secret-key material: the first 32 bytes of the
/// configured checksum string when it is long enough, otherwise the
/// 32-byte fallback digest of the application key. Lengths and the
/// prefix are in bytes, not characters, and a missing or too-short
/// checksum never fails — it falls back to the digest.
pub fn init(config_checksum: Option<&str>, fallback_digest: &[u8]) -> (r: Vec<u8>)
    requires
        fallback_digest@.len() == 32,
    ensures
        r@.len() == 32,
        match config_checksum {
            Some(checksum) => if checksum.spec_bytes().len() >= 32 {
                r@ == checksum.spec_bytes().subrange(0, 32)
            } else {
                r@ == fallback_digest@
            },
            None => r@ == fallback_digest@,
        },
{
    match config_checksum {
        Some(checksum) => {
            let bytes = checksum.as_bytes();
            if bytes.len() >= 32 {
                let mut prefix: Vec<u8> = Vec::new();
                let mut i: usize = 0;
                while i < 32
                    invariant
                        i <= 32,
                        bytes@.len() >= 32,
                        bytes@ == checksum.spec_bytes(),
                        prefix@ == bytes@.subrange(0, i as int),
                    decreases 32 - i,
                {
                    prefix.push(bytes[i]);
                    proof {
                        assert(prefix@ =~= bytes@.subrange(0, i + 1 as int));
                    }
                    i += 1;
                }
                prefix
            } else {
                copy_bytes(fallback_digest)
            }
        },
        None => copy_bytes(fallback_digest),
    }
}

/// A copy of a byte slice as an owned vector.
fn copy_bytes(bytes: &[u8]) -> (r: Vec<u8>)
    ensures
        r@ == bytes@,
{
    let mut copy: Vec<u8> = Vec::new();
    let n = bytes.len();
    let mut i: usize = 0;
    while i < n
        invariant
            n == bytes@.len(),
            i <= n,
            copy@ == bytes@.subrange(0, i as int),
        decreases n - i,
    {
        copy.push(bytes[i]);
        proof {
            assert(copy@ =~= bytes@.subrange(0, i + 1 as int));
        }
        i += 1;
    }
    proof {
        assert(copy@ =~= bytes@);
    }
    copy
}

} // verus!
