//! End-to-end checks of the manifest serialization, the compression
//! stage, the encryption stage and the container layout.

use rustfoil::compress::{compress, decompress, CompressionFlag};
use rustfoil::encrypt::aes_ecb_decrypt;
use rustfoil::encrypt::encrypt_payload;
use rustfoil::error::RustfoilError;
use rustfoil::index::{FileEntry, Index};
use rustfoil::json::serialize_index;
use rustfoil::tinfoil::convert_to_tinfoil_format;

use rsa::pkcs8::EncodePublicKey;

fn empty_index() -> Index {
    Index::new()
}

fn parse_json(bytes: &[u8]) -> serde_json::Value {
    serde_json::from_slice(bytes).expect("serializer must emit valid JSON")
}

#[test]
fn empty_manifest_serializes_to_empty_object() {
    let idx = empty_index();
    let out = serialize_index(&idx);
    assert_eq!(out, b"{}".to_vec());
}

#[test]
fn only_files_manifest_has_exactly_one_field() {
    let mut idx = empty_index();
    idx.files = Some(vec![FileEntry::new(String::from("gdrive:abc#Game"), 100)]);
    let out = serialize_index(&idx);
    assert_eq!(
        out,
        b"{\"files\":[{\"url\":\"gdrive:abc#Game\",\"size\":100}]}".to_vec()
    );
    let v = parse_json(&out);
    let obj = v.as_object().unwrap();
    assert_eq!(obj.len(), 1);
    let files = obj.get("files").unwrap().as_array().unwrap();
    assert_eq!(files.len(), 1);
    assert_eq!(files[0].get("url").unwrap().as_str().unwrap(), "gdrive:abc#Game");
    assert_eq!(files[0].get("size").unwrap().as_u64().unwrap(), 100);
}

#[test]
fn unset_fields_are_absent_not_null() {
    let mut idx = empty_index();
    idx.success = Some(String::from("hello"));
    idx.version = Some(String::from("14"));
    let out = serialize_index(&idx);
    let v = parse_json(&out);
    let obj = v.as_object().unwrap();
    assert_eq!(obj.len(), 2);
    assert!(obj.contains_key("success"));
    assert!(obj.contains_key("version"));
    assert!(!obj.contains_key("files"));
    assert!(!obj.contains_key("referrer"));
    assert!(!obj.contains_key("googleApiKey"));
    assert!(!obj.contains_key("themeError"));
    assert_eq!(obj.get("version").unwrap().as_u64().unwrap(), 14);
}

#[test]
fn every_set_field_appears_under_its_reader_name() {
    let mut idx = empty_index();
    idx.files = Some(vec![]);
    idx.directories = Some(vec![String::from("gdrive:f1")]);
    idx.success = Some(String::from("ok"));
    idx.referrer = Some(String::from("https://example.test"));
    idx.google_api_key = Some(String::from("SECRET-REDACTED"));
    idx.one_fichier_keys = Some(vec![String::from("k1"), String::from("k2")]);
    idx.headers = Some(vec![String::from("X-A: 1")]);
    idx.version = Some(String::from("13.0"));
    idx.theme_blacklist = Some(vec![String::from("deadbeef")]);
    idx.theme_whitelist = Some(vec![String::from("cafebabe")]);
    idx.theme_error = Some(String::from("bad theme"));
    let out = serialize_index(&idx);
    let v = parse_json(&out);
    let obj = v.as_object().unwrap();
    assert_eq!(obj.len(), 11);
    for key in [
        "files",
        "directories",
        "success",
        "referrer",
        "googleApiKey",
        "oneFichierKeys",
        "headers",
        "version",
        "themeBlackList",
        "themeWhiteList",
        "themeError",
    ] {
        assert!(obj.contains_key(key), "missing member {key}");
    }
    assert_eq!(
        obj.get("oneFichierKeys").unwrap().as_array().unwrap().len(),
        2
    );
}

#[test]
fn string_escaping_round_trips_through_a_json_parser() {
    let mut idx = empty_index();
    let tricky = "a\"b\\c\n\tod\u{1F600}e";
    idx.success = Some(String::from(tricky));
    let out = serialize_index(&idx);
    let v = parse_json(&out);
    assert_eq!(v.get("success").unwrap().as_str().unwrap(), tricky);
}

#[test]
fn compression_round_trips_for_every_algorithm() {
    let cases: Vec<Vec<u8>> = vec![
        Vec::new(),
        b"hello world".to_vec(),
        (0..=255u8).cycle().take(4096).collect(),
    ];
    for flag in [CompressionFlag::Off, CompressionFlag::ZSTD, CompressionFlag::Zlib] {
        for data in &cases {
            let packed = compress(data, flag).expect("compression must succeed");
            let unpacked = decompress(&packed, flag).expect("decompression must succeed");
            assert_eq!(&unpacked, data);
        }
    }
}

#[test]
fn pass_through_compression_copies_bytes() {
    let data = b"untouched".to_vec();
    let packed = compress(&data, CompressionFlag::Off).unwrap();
    assert_eq!(packed, data);
}

#[test]
fn decompression_rejects_garbage() {
    assert!(decompress(b"not a zstd frame", CompressionFlag::ZSTD).is_err());
    assert!(decompress(b"not a zlib stream", CompressionFlag::Zlib).is_err());
}

#[test]
fn plain_container_layout_is_header_then_payload() {
    let json = b"{\"files\":[]}".to_vec();
    let out = convert_to_tinfoil_format(&json, CompressionFlag::Off, None).unwrap();
    assert_eq!(&out[..7], b"TINFOIL");
    assert_eq!(out[7], 0x00);
    assert_eq!(&out[8..], &json[..]);
}

#[test]
fn compression_tags_match_the_reader_expectations() {
    let json = b"{}".to_vec();
    let z = convert_to_tinfoil_format(&json, CompressionFlag::ZSTD, None).unwrap();
    assert_eq!(z[7], 0x0D);
    assert_eq!(
        decompress(&z[8..], CompressionFlag::ZSTD).unwrap(),
        json
    );
    let d = convert_to_tinfoil_format(&json, CompressionFlag::Zlib, None).unwrap();
    assert_eq!(d[7], 0x0E);
    assert_eq!(
        decompress(&d[8..], CompressionFlag::Zlib).unwrap(),
        json
    );
}

fn test_keypair() -> (rsa::RsaPrivateKey, String) {
    let mut rng = rand::thread_rng();
    let private = rsa::RsaPrivateKey::new(&mut rng, 1024).expect("key generation");
    let public_pem = rsa::RsaPublicKey::from(&private)
        .to_public_key_pem(rsa::pkcs8::LineEnding::LF)
        .expect("pem encoding");
    (private, public_pem)
}

#[test]
fn hybrid_encryption_round_trips_with_the_matching_private_key() {
    let (private, public_pem) = test_keypair();
    let data = b"compressed manifest payload bytes".to_vec();
    let (wrapped, cipher) = encrypt_payload(&data, &public_pem).expect("encryption");
    // The wrapped blob has the size of the modulus.
    assert_eq!(wrapped.len(), 128);
    // Unwrap the symmetric key with the private key, as the reader does.
    let sym = private
        .decrypt(rsa::Pkcs1v15Encrypt, &wrapped)
        .expect("key unwrap");
    assert_eq!(sym.len(), 32);
    let plain = aes_ecb_decrypt(&sym, &cipher).expect("symmetric decryption");
    assert_eq!(plain, data);
}

#[test]
fn encrypted_container_round_trips() {
    let (private, public_pem) = test_keypair();
    let json = b"{\"files\":[]}".to_vec();
    let out =
        convert_to_tinfoil_format(&json, CompressionFlag::Zlib, Some(&public_pem)).unwrap();
    assert_eq!(&out[..7], b"TINFOIL");
    assert_eq!(out[7], 0x0E | 0xF0);
    let wrapped = &out[8..8 + 128];
    let cipher = &out[8 + 128..];
    let sym = private.decrypt(rsa::Pkcs1v15Encrypt, wrapped).unwrap();
    let payload = aes_ecb_decrypt(&sym, cipher).unwrap();
    assert_eq!(decompress(&payload, CompressionFlag::Zlib).unwrap(), json);
}

#[test]
fn truncated_public_key_fails_before_any_output_exists() {
    let bad_pem = "-----BEGIN PUBLIC KEY-----\nMIIBIjANBg\n-----END PUBLIC KEY-----\n";
    let json = b"{}".to_vec();
    let r = convert_to_tinfoil_format(&json, CompressionFlag::Off, Some(bad_pem));
    assert!(matches!(r, Err(RustfoilError::KeyParse)));
}

#[test]
fn empty_payload_encrypts_to_one_padding_block() {
    let (private, public_pem) = test_keypair();
    let (wrapped, cipher) = encrypt_payload(&[], &public_pem).unwrap();
    assert_eq!(cipher.len(), 16);
    let sym = private.decrypt(rsa::Pkcs1v15Encrypt, &wrapped).unwrap();
    assert_eq!(aes_ecb_decrypt(&sym, &cipher).unwrap(), Vec::<u8>::new());
}

#[test]
fn too_small_modulus_fails_the_key_wrap() {
    let mut rng = rand::thread_rng();
    let private = rsa::RsaPrivateKey::new(&mut rng, 256).expect("key generation");
    let public_pem = rsa::RsaPublicKey::from(&private)
        .to_public_key_pem(rsa::pkcs8::LineEnding::LF)
        .expect("pem encoding");
    // A 256-bit modulus cannot transport a 32-byte key under PKCS#1 v1.5.
    let r = encrypt_payload(b"payload", &public_pem);
    assert!(matches!(r, Err(RustfoilError::KeyWrap)));
}

#[test]
fn symmetric_decryption_rejects_unaligned_input() {
    let key = [7u8; 32];
    assert!(aes_ecb_decrypt(&key, b"short").is_none());
    assert!(aes_ecb_decrypt(&key, b"").is_none());
}
