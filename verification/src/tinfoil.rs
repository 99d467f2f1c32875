//! The container format, the single place where the wire layout lives.
//!
//! Layout (fixed by the external reader; changing any byte of it is a
//! compatibility bug):
//!   bytes 0..7   magic `TINFOIL`
//!   byte  7      flag: compression tag plus encrypted tag
//!   then, if encrypted, the wrapped symmetric key blob,
//!   then the payload: the serialized manifest, compressed, and
//!   ECB-encrypted when a public key is configured.

use crate::compress::compress;
use crate::compress::compression_tag;
use crate::compress::inflate_model;
use crate::compress::CompressionFlag;
use crate::encrypt::encrypt_payload;
use crate::encrypt::encryption_tag;
use crate::encrypt::hybrid_shape;
use crate::encrypt::rsa_modulus_len;
use crate::encrypt::rsa_pem_ok;
use crate::encrypt::EncryptionFlag;
use crate::error::RustfoilError;
use vstd::prelude::*;

verus! {

/// The magic bytes `TINFOIL`.
pub open spec fn magic_bytes() -> Seq<u8> {
    seq![0x54u8, 0x49u8, 0x4Eu8, 0x46u8, 0x4Fu8, 0x49u8, 0x4Cu8]
}

/// The fixed-size header: magic then one flag byte holding both tags.
pub open spec fn header_bytes(c: CompressionFlag, e: EncryptionFlag) -> Seq<u8> {
    magic_bytes() + seq![(compression_tag(c) + encryption_tag(e)) as u8]
}

/// An unencrypted container: the header, then a payload that
/// decompresses to the serialized manifest.
pub open spec fn plain_container_ok(out: Seq<u8>, json: Seq<u8>, c: CompressionFlag) -> bool {
    &&& out.len() >= 8
    &&& out.take(8) == header_bytes(c, EncryptionFlag::NoEncrypt)
    &&& inflate_model(out.skip(8), c) == Some(json)
}

/// An encrypted container: the header, then the modulus-sized
/// wrapped-key blob, then a ciphertext that decrypts — under the
/// 256-bit key the blob transports, recoverable with the key pair the
/// pem names — to a payload that decompresses to the serialized
/// manifest.
pub open spec fn encrypted_container_ok(
    out: Seq<u8>,
    json: Seq<u8>,
    c: CompressionFlag,
    pem: Seq<char>,
) -> bool {
    let wlen = rsa_modulus_len(pem) as int;
    &&& out.len() >= 8 + wlen
    &&& out.take(8) == header_bytes(c, EncryptionFlag::Encrypt)
    &&& exists|payload: Seq<u8>|
        hybrid_shape(pem, out.subrange(8, 8 + wlen), out.skip(8 + wlen), payload)
            && #[trigger] inflate_model(payload, c) == Some(json)
}

/// The container is well formed for the serialized manifest `json`,
/// encrypted exactly when a key text is configured.
pub open spec fn container_ok(
    out: Seq<u8>,
    json: Seq<u8>,
    c: CompressionFlag,
    key_pem: Option<Seq<char>>,
) -> bool {
    match key_pem {
        Option::Some(pem) => encrypted_container_ok(out, json, c, pem),
        Option::None => plain_container_ok(out, json, c),
    }
}

/// The configured key text, as the container specification sees it.
pub open spec fn pem_view(p: Option<&str>) -> Option<Seq<char>> {
    match p {
        Option::Some(s) => Option::Some(s@),
        Option::None => Option::None,
    }
}

/// Builds the container for the serialized manifest `json`: compresses
/// it, encrypts the result when a public key is configured, and frames
/// everything with the fixed header. A key that does not parse, a
/// modulus too small to transport the 256-bit key, or a compression
/// failure aborts before any output exists; with pass-through
/// compression the build succeeds exactly when the key, if any, is
/// usable.
pub fn convert_to_tinfoil_format(
    json: &[u8],
    compression: CompressionFlag,
    public_key_pem: Option<&str>,
) -> (r: Result<Vec<u8>, RustfoilError>)
    ensures
        r matches Ok(v) ==> container_ok(v@, json@, compression, pem_view(public_key_pem)),
        (public_key_pem is None && compression == CompressionFlag::Off) ==> r is Ok,
        public_key_pem matches Some(pem) ==> ((!rsa_pem_ok(pem@) || rsa_modulus_len(pem@) < 43)
            ==> r is Err),
        public_key_pem matches Some(pem) ==> (compression == CompressionFlag::Off ==> (r is Ok
            <==> (rsa_pem_ok(pem@) && rsa_modulus_len(pem@) >= 43))),
        r matches Err(e) ==> ((e is CompressionFailed || e is KeyParse || e is KeyWrap) && (e
            is CompressionFailed ==> compression != CompressionFlag::Off) && (e is KeyParse
            ==> (public_key_pem matches Some(pem) && !rsa_pem_ok(pem@))) && (e is KeyWrap ==> (
        public_key_pem matches Some(pem) && rsa_pem_ok(pem@) && rsa_modulus_len(pem@) < 43))),
{
    let payload = match compress(json, compression) {
        Ok(p) => p,
        Err(e) => {
            return Err(e);
        },
    };
    let mut out: Vec<u8> = Vec::new();
    out.push(0x54);
    out.push(0x49);
    out.push(0x4E);
    out.push(0x46);
    out.push(0x4F);
    out.push(0x49);
    out.push(0x4C);
    match public_key_pem {
        Option::Some(pem) => {
            out.push(compression.tag() + 0xF0);
            let (wrapped, cipher) = match encrypt_payload(payload.as_slice(), pem) {
                Ok(pair) => pair,
                Err(e) => {
                    return Err(e);
                },
            };
            let ghost wlen = rsa_modulus_len(pem@) as int;
            out.extend_from_slice(wrapped.as_slice());
            out.extend_from_slice(cipher.as_slice());
            proof {
                assert(wrapped@.len() == wlen);
                assert(out@.take(8) =~= header_bytes(compression, EncryptionFlag::Encrypt));
                assert(out@.subrange(8, 8 + wlen) =~= wrapped@);
                assert(out@.skip(8 + wlen) =~= cipher@);
                assert(hybrid_shape(pem@, out@.subrange(8, 8 + wlen), out@.skip(8 + wlen),
                    payload@) && inflate_model(payload@, compression) == Some(json@));
            }
            Ok(out)
        },
        Option::None => {
            out.push(compression.tag());
            out.extend_from_slice(payload.as_slice());
            proof {
                assert(out@.take(8) =~= header_bytes(compression, EncryptionFlag::NoEncrypt));
                assert(out@.skip(8) =~= payload@);
            }
            Ok(out)
        },
    }
}

} // verus!
