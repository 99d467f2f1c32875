//! The encryption stage: a hybrid container fixed by the external
//! reader's decryption code. A fresh 256-bit symmetric key encrypts the
//! compressed payload with AES-256 in ECB mode, and the key itself is
//! wrapped under a configured RSA public key. ECB is an externally
//! imposed wire-format constraint kept for interoperability; it is not a
//! recommended construction and must not be "fixed" here, since that
//! would break the consuming application.

use crate::error::RustfoilError;
use vstd::prelude::*;

verus! {

/// The header flag recording whether the payload is encrypted.
#[derive(Clone, Copy, PartialEq, Eq, Structural)]
pub enum EncryptionFlag {
    NoEncrypt,
    Encrypt,
}

/// The header tag for the encrypted bit; fixed by the external reader.
pub open spec fn encryption_tag(e: EncryptionFlag) -> u8 {
    match e {
        EncryptionFlag::NoEncrypt => 0x00,
        EncryptionFlag::Encrypt => 0xF0,
    }
}

impl EncryptionFlag {
    /// The header tag for this flag.
    pub fn tag(&self) -> (r: u8)
        ensures
            r == encryption_tag(*self),
    {
        match self {
            EncryptionFlag::NoEncrypt => 0x00,
            EncryptionFlag::Encrypt => 0xF0,
        }
    }
}

/// How many bytes PKCS#7 adds to a payload of length `n`: always between
/// one and a full block.
pub open spec fn pad_amount(n: nat) -> nat {
    (16 - (n % 16)) as nat
}

/// `data` extended with PKCS#7 padding to a whole number of blocks.
pub open spec fn pkcs7_pad(data: Seq<u8>) -> Seq<u8> {
    data + Seq::new(pad_amount(data.len()), |i: int| pad_amount(data.len()) as u8)
}

/// Strips PKCS#7 padding; yields nothing when the tail is not a valid
/// padding.
pub open spec fn pkcs7_unpad(data: Seq<u8>) -> Option<Seq<u8>> {
    if data.len() == 0 || data.len() % 16 != 0 {
        None
    } else {
        let p = data.last() as int;
        if 1 <= p <= 16 && (forall|j: int|
            data.len() - p <= j < data.len() ==> data[j] == data.last()) {
            Some(data.take(data.len() - p))
        } else {
            None
        }
    }
}

/// The padded form is nonempty and block-aligned.
pub proof fn lemma_pad_shape(data: Seq<u8>)
    ensures
        pkcs7_pad(data).len() == data.len() + pad_amount(data.len()),
        1 <= pad_amount(data.len()) <= 16,
        pkcs7_pad(data).len() % 16 == 0,
        pkcs7_pad(data).len() > 0,
{
    let n = data.len();
    assert(n % 16 < 16);
    assert((n + (16 - n % 16)) % 16 == 0) by (nonlinear_arith);
}

/// Law: stripping the padding that `pkcs7_pad` added yields the original
/// bytes, for every input including the empty one.
pub proof fn lemma_pkcs7_round_trip(data: Seq<u8>)
    ensures
        pkcs7_unpad(pkcs7_pad(data)) == Some(data),
{
    lemma_pad_shape(data);
    let padded = pkcs7_pad(data);
    let p = pad_amount(data.len());
    assert(padded.last() == p as u8);
    assert(forall|j: int|
        padded.len() - p <= j < padded.len() ==> padded[j] == padded.last());
    assert(padded.take(padded.len() - p) =~= data);
}

/// What AES-256 block decryption under `key` yields on a 16-byte block.
/// The block cipher is a permutation: this names the inverse direction,
/// and the encrypt wrapper promises that its output maps back to its
/// input.
pub uninterp spec fn aes256_unblock(key: Seq<u8>, block: Seq<u8>) -> Seq<u8>;

/// Relies on `aes::Aes256` through `cipher::BlockEncrypt`: a 32-byte key
/// selects a permutation of 16-byte blocks, and block decryption under
/// the same key inverts it.
#[verifier::external_body]
fn aes256_encrypt_block(key: &[u8], block: &[u8]) -> (r: Vec<u8>)
    requires
        key@.len() == 32,
        block@.len() == 16,
    ensures
        r@.len() == 16,
        aes256_unblock(key@, r@) == block@,
{
    let cipher = <aes::Aes256 as aes::cipher::KeyInit>::new_from_slice(key).unwrap();
    let mut b = aes::cipher::generic_array::GenericArray::clone_from_slice(block);
    aes::cipher::BlockEncrypt::encrypt_block(&cipher, &mut b);
    b.to_vec()
}

/// Relies on `aes::Aes256` through `cipher::BlockDecrypt`: block
/// decryption under `key`, the function `aes256_unblock` names.
#[verifier::external_body]
fn aes256_decrypt_block(key: &[u8], block: &[u8]) -> (r: Vec<u8>)
    requires
        key@.len() == 32,
        block@.len() == 16,
    ensures
        r@.len() == 16,
        r@ == aes256_unblock(key@, block@),
{
    let cipher = <aes::Aes256 as aes::cipher::KeyInit>::new_from_slice(key).unwrap();
    let mut b = aes::cipher::generic_array::GenericArray::clone_from_slice(block);
    aes::cipher::BlockDecrypt::decrypt_block(&cipher, &mut b);
    b.to_vec()
}

/// ECB decryption of a block-aligned ciphertext, block by block.
pub open spec fn ecb_decrypt_model(key: Seq<u8>, c: Seq<u8>) -> Seq<u8>
    decreases c.len(),
{
    if c.len() < 16 {
        Seq::empty()
    } else {
        aes256_unblock(key, c.take(16)) + ecb_decrypt_model(key, c.skip(16))
    }
}

/// ECB decryption distributes over block-aligned concatenation.
proof fn lemma_ecb_model_append(key: Seq<u8>, a: Seq<u8>, b: Seq<u8>)
    requires
        a.len() % 16 == 0,
    ensures
        ecb_decrypt_model(key, a + b) == ecb_decrypt_model(key, a) + ecb_decrypt_model(key, b),
    decreases a.len(),
{
    if a.len() == 0 {
        assert(a + b =~= b);
        assert(ecb_decrypt_model(key, a) + ecb_decrypt_model(key, b) =~= ecb_decrypt_model(
            key,
            b,
        ));
    } else {
        assert(a.len() >= 16);
        assert((a + b).len() >= 16);
        assert((a + b).take(16) =~= a.take(16));
        assert((a + b).skip(16) =~= a.skip(16) + b);
        assert(a.skip(16).len() % 16 == 0);
        lemma_ecb_model_append(key, a.skip(16), b);
        assert(ecb_decrypt_model(key, a) == aes256_unblock(key, a.take(16)) + ecb_decrypt_model(
            key,
            a.skip(16),
        ));
        assert(ecb_decrypt_model(key, a + b) =~= ecb_decrypt_model(key, a) + ecb_decrypt_model(
            key,
            b,
        ));
    }
}

/// A single block decrypts to its named inverse.
proof fn lemma_ecb_model_single(key: Seq<u8>, b: Seq<u8>)
    requires
        b.len() == 16,
    ensures
        ecb_decrypt_model(key, b) == aes256_unblock(key, b),
{
    assert(b.take(16) =~= b);
    assert(ecb_decrypt_model(key, b.skip(16)) =~= Seq::<u8>::empty());
    assert(aes256_unblock(key, b) + Seq::<u8>::empty() =~= aes256_unblock(key, b));
}

/// Appends PKCS#7 padding to a copy of `data`.
fn pkcs7_pad_vec(data: &[u8]) -> (r: Vec<u8>)
    ensures
        r@ == pkcs7_pad(data@),
{
    let mut out = vstd::slice::slice_to_vec(data);
    let p: u8 = (16 - (data.len() % 16)) as u8;
    let mut j: usize = 0;
    while j < p as usize
        invariant
            0 <= j <= p,
            p == pad_amount(data@.len()),
            out@ == data@ + Seq::new(j as nat, |i: int| p),
        decreases p - j,
    {
        out.push(p);
        proof {
            assert(out@ =~= data@ + Seq::new((j + 1) as nat, |i: int| p));
        }
        j = j + 1;
    }
    proof {
        assert(out@ =~= pkcs7_pad(data@));
    }
    out
}

/// Encrypts `data` under `key` with AES-256 in ECB mode after PKCS#7
/// padding. The output decrypts, block by block under the same key,
/// exactly to the padded input.
pub fn aes_ecb_encrypt(key: &[u8], data: &[u8]) -> (r: Vec<u8>)
    requires
        key@.len() == 32,
    ensures
        r@.len() == pkcs7_pad(data@).len(),
        ecb_decrypt_model(key@, r@) == pkcs7_pad(data@),
{
    proof {
        lemma_pad_shape(data@);
    }
    let padded = pkcs7_pad_vec(data);
    let n = padded.len();
    let mut out: Vec<u8> = Vec::new();
    let mut i: usize = 0;
    while i < n
        invariant
            key@.len() == 32,
            n == padded@.len(),
            padded@ == pkcs7_pad(data@),
            n % 16 == 0,
            i % 16 == 0,
            0 <= i <= n,
            out@.len() == i,
            ecb_decrypt_model(key@, out@) == padded@.take(i as int),
        decreases n - i,
    {
        proof {
            assert((n - i) % 16 == 0) by (nonlinear_arith)
                requires n % 16 == 0, i % 16 == 0, i <= n,
            ;
            assert((n - i) < 16 ==> (n - i) % 16 == n - i);
        }
        assert(i + 16 <= n);
        let block = vstd::slice::slice_subrange(padded.as_slice(), i, i + 16);
        let eb = aes256_encrypt_block(key, block);
        let ghost out_old = out@;
        out.extend_from_slice(eb.as_slice());
        proof {
            lemma_ecb_model_append(key@, out_old, eb@);
            lemma_ecb_model_single(key@, eb@);
            assert(out@ == out_old + eb@);
            assert(ecb_decrypt_model(key@, out@) == ecb_decrypt_model(key@, out_old)
                + ecb_decrypt_model(key@, eb@));
            assert(aes256_unblock(key@, eb@) == padded@.subrange(i as int, i as int + 16));
            assert(padded@.take(i as int + 16) =~= padded@.take(i as int) + padded@.subrange(
                i as int,
                i as int + 16,
            ));
            assert(ecb_decrypt_model(key@, out@) == padded@.take(i as int + 16));
        }
        i = i + 16;
    }
    proof {
        assert(i == n);
        assert(padded@.take(n as int) =~= padded@);
    }
    out
}

/// What decrypting a ciphertext produced by this stage yields: ECB block
/// decryption followed by stripping the PKCS#7 padding. Nothing when the
/// input is empty, unaligned, or not padded correctly once decrypted.
pub open spec fn decrypt_model(key: Seq<u8>, c: Seq<u8>) -> Option<Seq<u8>> {
    if c.len() == 0 || c.len() % 16 != 0 {
        None
    } else {
        pkcs7_unpad(ecb_decrypt_model(key, c))
    }
}

/// Strips PKCS#7 padding from a decrypted buffer.
fn pkcs7_unpad_vec(data: &[u8]) -> (r: Option<Vec<u8>>)
    requires
        data@.len() > 0,
        data@.len() % 16 == 0,
    ensures
        r matches Some(v) ==> pkcs7_unpad(data@) == Some(v@),
        pkcs7_unpad(data@) is Some ==> r is Some,
{
    let n = data.len();
    assert(n >= 16);
    let p = data[n - 1];
    proof {
        assert(data@.last() == data@[n - 1]);
    }
    if p < 1 || p > 16 {
        proof {
            assert(!(1 <= data@.last() as int <= 16));
        }
        return None;
    }
    let start = n - p as usize;
    let mut j: usize = start;
    while j < n
        invariant
            n == data@.len(),
            16 <= n,
            1 <= p <= 16,
            p == data@.last(),
            start == n - p,
            start <= j <= n,
            forall|k: int| start <= k < j ==> data@[k] == p,
        decreases n - j,
    {
        if data[j] != p {
            proof {
                assert(data@[j as int] != data@.last());
                assert(n - (data@.last() as int) <= j < n);
            }
            return None;
        }
        j = j + 1;
    }
    proof {
        assert(data@.last() == data@[n - 1]);
    }
    Some(vstd::slice::slice_to_vec(vstd::slice::slice_subrange(data, 0, start)))
}

/// Decrypts an ECB ciphertext under `key` and strips the padding.
/// Succeeds exactly where `decrypt_model` does, and then returns exactly
/// its value.
pub fn aes_ecb_decrypt(key: &[u8], data: &[u8]) -> (r: Option<Vec<u8>>)
    requires
        key@.len() == 32,
    ensures
        r matches Some(v) ==> decrypt_model(key@, data@) == Some(v@),
        decrypt_model(key@, data@) is Some ==> r is Some,
{
    let n = data.len();
    if n == 0 || n % 16 != 0 {
        return None;
    }
    let mut plain: Vec<u8> = Vec::new();
    let mut i: usize = 0;
    while i < n
        invariant
            key@.len() == 32,
            n == data@.len(),
            n % 16 == 0,
            n > 0,
            i % 16 == 0,
            0 <= i <= n,
            plain@.len() == i,
            ecb_decrypt_model(key@, data@.take(i as int)) == plain@,
        decreases n - i,
    {
        proof {
            assert((n - i) % 16 == 0) by (nonlinear_arith)
                requires n % 16 == 0, i % 16 == 0, i <= n,
            ;
            assert((n - i) < 16 ==> (n - i) % 16 == n - i);
        }
        assert(i + 16 <= n);
        let block = vstd::slice::slice_subrange(data, i, i + 16);
        let db = aes256_decrypt_block(key, block);
        let ghost plain_old = plain@;
        plain.extend_from_slice(db.as_slice());
        proof {
            assert(data@.take(i as int).len() % 16 == 0);
            assert(data@.take(i as int + 16) =~= data@.take(i as int) + data@.subrange(
                i as int,
                i as int + 16,
            ));
            lemma_ecb_model_append(key@, data@.take(i as int), data@.subrange(
                i as int,
                i as int + 16,
            ));
            lemma_ecb_model_single(key@, data@.subrange(i as int, i as int + 16));
            assert(plain@ == plain_old + db@);
            assert(db@ == aes256_unblock(key@, data@.subrange(i as int, i as int + 16)));
            assert(ecb_decrypt_model(key@, data@.take(i as int + 16)) == ecb_decrypt_model(
                key@,
                data@.take(i as int),
            ) + ecb_decrypt_model(key@, data@.subrange(i as int, i as int + 16)));
            assert(ecb_decrypt_model(key@, data@.take(i as int + 16)) == plain@);
        }
        i = i + 16;
    }
    proof {
        assert(i == n);
        assert(data@.take(n as int) =~= data@);
    }
    pkcs7_unpad_vec(plain.as_slice())
}

/// Whether the text parses as a PEM-encoded RSA public key: pkcs8
/// `SubjectPublicKeyInfo` that passes the rsa crate's validity checks.
/// A function of the text alone.
pub uninterp spec fn rsa_pem_ok(pem: Seq<char>) -> bool;

/// The byte length of the modulus of the key the text holds.
pub uninterp spec fn rsa_modulus_len(pem: Seq<char>) -> nat;

/// What PKCS#1 v1.5 decryption under the private key matching the
/// public key in `pem` yields on `blob`. The key pair is determined by
/// the public key, so this is a function of the text and the blob.
pub uninterp spec fn rsa_unwrap(pem: Seq<char>, blob: Seq<u8>) -> Option<Seq<u8>>;

/// The shape of the encryption stage's output for `pem` and `data`: a
/// modulus-sized wrapped-key blob that decrypts, under the key pair the
/// pem names, to a 256-bit key under which the ciphertext decrypts to
/// `data`.
pub open spec fn hybrid_shape(
    pem: Seq<char>,
    wrapped: Seq<u8>,
    cipher: Seq<u8>,
    data: Seq<u8>,
) -> bool {
    &&& wrapped.len() == rsa_modulus_len(pem)
    &&& exists|k: Seq<u8>|
        k.len() == 32 && rsa_unwrap(pem, wrapped) == Some(k) && #[trigger] decrypt_model(
            k,
            cipher,
        ) == Some(data)
}

/// Law: the symmetric layer round-trips. A ciphertext with the shape
/// `aes_ecb_encrypt` guarantees decrypts, under the same key, exactly to
/// the original bytes.
pub proof fn lemma_symmetric_round_trip(key: Seq<u8>, data: Seq<u8>, c: Seq<u8>)
    requires
        c.len() == pkcs7_pad(data).len(),
        ecb_decrypt_model(key, c) == pkcs7_pad(data),
    ensures
        decrypt_model(key, c) == Some(data),
{
    lemma_pad_shape(data);
    lemma_pkcs7_round_trip(data);
}

/// Relies on `rsa::RsaPublicKey::from_public_key_pem`, which runs the
/// crate's key validation (`RsaPublicKey::new`), and on
/// `PublicKeyParts::size` for the modulus byte length; both are
/// functions of the text alone. One item holds both calls because the
/// key type is opaque here: only the pem text can carry the facts.
#[verifier::external_body]
fn parse_public_key(pem: &str) -> (r: Result<usize, ()>)
    ensures
        r is Ok <==> rsa_pem_ok(pem@),
        r matches Ok(n) ==> n == rsa_modulus_len(pem@),
{
    match <rsa::RsaPublicKey as rsa::pkcs8::DecodePublicKey>::from_public_key_pem(pem) {
        Ok(k) => Ok(rsa::traits::PublicKeyParts::size(&k)),
        Err(_) => Err(()),
    }
}

/// Relies on `rsa::RsaPublicKey::from_public_key_pem` and
/// `RsaPublicKey::encrypt` with PKCS#1 v1.5 padding and a thread-local
/// RNG. A key that parses has passed the crate's checks, so for a
/// message at least eleven bytes shorter than the modulus the
/// encryption cannot fail; the ciphertext is exactly modulus-sized, and
/// decryption under the matching private key yields the message back —
/// whatever bytes the randomized padding chose.
#[verifier::external_body]
fn rsa_wrap_key(pem: &str, data: &[u8]) -> (r: Vec<u8>)
    requires
        rsa_pem_ok(pem@),
        data@.len() + 11 <= rsa_modulus_len(pem@),
    ensures
        r@.len() == rsa_modulus_len(pem@),
        rsa_unwrap(pem@, r@) == Some(data@),
{
    let key = <rsa::RsaPublicKey as rsa::pkcs8::DecodePublicKey>::from_public_key_pem(pem)
        .unwrap();
    key.encrypt(&mut rand::thread_rng(), rsa::Pkcs1v15Encrypt, data).unwrap()
}

/// Relies on `rand::thread_rng` and `RngCore::fill_bytes` for a fresh
/// 256-bit symmetric key; nothing is assumed beyond the length.
#[verifier::external_body]
fn generate_symmetric_key() -> (r: Vec<u8>)
    ensures
        r@.len() == 32,
{
    let mut key = vec![0u8; 32];
    rand::RngCore::fill_bytes(&mut rand::thread_rng(), &mut key);
    key
}

/// The encryption stage. Generates a fresh 256-bit symmetric key, wraps
/// it under the configured public key, and ECB-encrypts the payload.
/// Succeeds exactly when the pem parses and its modulus can transport a
/// 32-byte key under PKCS#1 v1.5 (43 bytes or more); a pem that does
/// not parse is the parse error, a modulus too small the wrap error,
/// each reported before anything is produced. On success the wrapped
/// blob comes first and the ciphertext second, and the blob decrypts,
/// under the key pair the pem names, to the very key under which the
/// ciphertext decrypts to `data`.
pub fn encrypt_payload(data: &[u8], public_key_pem: &str) -> (r: Result<
    (Vec<u8>, Vec<u8>),
    RustfoilError,
>)
    ensures
        r matches Ok(pair) ==> hybrid_shape(public_key_pem@, pair.0@, pair.1@, data@),
        r is Ok <==> (rsa_pem_ok(public_key_pem@) && rsa_modulus_len(public_key_pem@) >= 43),
        (r matches Err(e) && e is KeyParse) <==> !rsa_pem_ok(public_key_pem@),
        (r matches Err(e) && e is KeyWrap) <==> (rsa_pem_ok(public_key_pem@) && rsa_modulus_len(
            public_key_pem@,
        ) < 43),
        r matches Err(e) ==> (e is KeyParse || e is KeyWrap),
{
    let klen = match parse_public_key(public_key_pem) {
        Ok(n) => n,
        Err(_) => {
            return Err(RustfoilError::KeyParse);
        },
    };
    if klen < 43 {
        return Err(RustfoilError::KeyWrap);
    }
    let sym = generate_symmetric_key();
    let wrapped = rsa_wrap_key(public_key_pem, sym.as_slice());
    let cipher = aes_ecb_encrypt(sym.as_slice(), data);
    proof {
        lemma_symmetric_round_trip(sym@, data@, cipher@);
        assert(sym@.len() == 32 && rsa_unwrap(public_key_pem@, wrapped@) == Some(sym@)
            && decrypt_model(sym@, cipher@) == Some(data@));
        assert(hybrid_shape(public_key_pem@, wrapped@, cipher@, data@));
    }
    Ok((wrapped, cipher))
}

} // verus!
