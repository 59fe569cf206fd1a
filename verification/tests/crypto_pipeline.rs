//! The credential-bootstrap pipeline against real OpenSSL structures.

use bootagent::crypto::{self, Config, CryptoError};
use bootagent::sshkey::SshKeyData;
use openssl::cms::{CMSOptions, CmsContentInfo};
use openssl::pkcs12::Pkcs12;
use openssl::stack::Stack;
use openssl::symm::Cipher;

/// Wraps a DER-encoded envelope as the S/MIME message the platform serves.
fn smime_wrap(der: &[u8]) -> Vec<u8> {
    let b64 = openssl::base64::encode_block(der);
    let mut text = String::new();
    text.push_str("MIME-Version: 1.0\r\n");
    text.push_str("Content-Disposition: attachment; filename=\"smime.p7m\"\r\n");
    text.push_str(
        "Content-Type: application/x-pkcs7-mime; smime-type=enveloped-data; name=\"smime.p7m\"\r\n",
    );
    text.push_str("Content-Transfer-Encoding: base64\r\n\r\n");
    for chunk in b64.as_bytes().chunks(64) {
        text.push_str(std::str::from_utf8(chunk).unwrap());
        text.push_str("\r\n");
    }
    text.into_bytes()
}

#[test]
fn cms_round_trip_recovers_bytes() {
    let (cert, pkey) = crypto::generate_cert(&Config::new(2048, 2)).unwrap();
    let secret: Vec<u8> = (0u8..=255).collect();

    let mut recipients = Stack::new().unwrap();
    recipients.push(cert.clone()).unwrap();
    let envelope = CmsContentInfo::encrypt(
        &recipients,
        &secret,
        Cipher::aes_256_cbc(),
        CMSOptions::BINARY,
    )
    .unwrap();
    let smime = smime_wrap(&envelope.to_der().unwrap());

    let out = crypto::decrypt_cms(&smime, &pkey, &cert).unwrap();
    assert_eq!(out, secret);
}

#[test]
fn cms_decrypt_with_mismatched_credential_fails() {
    let (cert, _pkey) = crypto::generate_cert(&Config::new(2048, 2)).unwrap();
    let (other_cert, other_pkey) = crypto::generate_cert(&Config::new(2048, 2)).unwrap();
    let secret = b"addressed to the first credential only".to_vec();

    let mut recipients = Stack::new().unwrap();
    recipients.push(cert).unwrap();
    let envelope = CmsContentInfo::encrypt(
        &recipients,
        &secret,
        Cipher::aes_256_cbc(),
        CMSOptions::BINARY,
    )
    .unwrap();
    let smime = smime_wrap(&envelope.to_der().unwrap());

    let r = crypto::decrypt_cms(&smime, &other_pkey, &other_cert);
    assert_eq!(r, Err(CryptoError::CmsDecrypt));
}

#[test]
fn malformed_envelope_is_a_read_error() {
    let (cert, pkey) = crypto::generate_cert(&Config::new(2048, 2)).unwrap();
    let r = crypto::decrypt_cms(b"not an smime structure", &pkey, &cert);
    assert_eq!(r, Err(CryptoError::CmsRead));
}

#[test]
fn p12_with_empty_chain_yields_no_key() {
    let (cert, pkey) = crypto::generate_cert(&Config::new(2048, 2)).unwrap();
    let p12 = Pkcs12::builder()
        .name("credential")
        .pkey(&pkey)
        .cert(&cert)
        .build2("")
        .unwrap();
    let r = crypto::p12_to_ssh_pubkey(&p12.to_der().unwrap()).unwrap();
    assert!(r.is_none());
}

#[test]
fn p12_with_one_chain_entry_yields_its_rsa_key() {
    let (cert, pkey) = crypto::generate_cert(&Config::new(2048, 2)).unwrap();
    let (chain_cert, _chain_key) = crypto::generate_cert(&Config::new(2048, 2)).unwrap();
    let mut chain = Stack::new().unwrap();
    chain.push(chain_cert).unwrap();
    let p12 = Pkcs12::builder()
        .name("credential")
        .pkey(&pkey)
        .cert(&cert)
        .ca(chain)
        .build2("")
        .unwrap();
    let key = crypto::p12_to_ssh_pubkey(&p12.to_der().unwrap()).unwrap().unwrap();
    // A bare key converted from certificate components carries no
    // authorized-keys options and no comment.
    assert_eq!(key.options, None);
    assert_eq!(key.comment, None);
    match key.data {
        SshKeyData::Rsa { exponent, modulus } => {
            assert_eq!(exponent, vec![1, 0, 1]);
            assert_eq!(modulus.len(), 256);
        },
        SshKeyData::Other { .. } => panic!("expected an RSA key"),
    }
}

#[test]
fn malformed_container_bytes_are_fatal() {
    let r = crypto::p12_to_ssh_pubkey(b"not a keyed container");
    assert_eq!(r.err(), Some(CryptoError::ContainerParse));
}

#[test]
fn impossible_key_size_is_a_generation_error() {
    let r = crypto::generate_cert(&Config::new(0, 2));
    assert_eq!(r.err(), Some(CryptoError::KeypairGeneration));
}

#[test]
fn mangled_certificate_is_a_single_line() {
    let (cert, _pkey) = crypto::generate_cert(&Config::new(2048, 2)).unwrap();
    let token = crypto::mangle_pem(&cert).unwrap();
    assert!(!token.is_empty());
    assert!(!token.contains('\n'));
    assert!(!token.contains("BEGIN CERTIFICATE"));
    assert!(!token.contains("END CERTIFICATE"));
}

#[test]
fn strip_pem_framing_keeps_only_body_lines() {
    let pem = "-----BEGIN CERTIFICATE-----\nabc\ndef\n-----END CERTIFICATE-----\n";
    assert_eq!(crypto::strip_pem_framing(pem), "abcdef");
    let with_cr = "-----BEGIN CERTIFICATE-----\r\nabc\r\ndef\r\n-----END CERTIFICATE-----\r\n";
    assert_eq!(crypto::strip_pem_framing(with_cr), "abcdef");
    assert_eq!(crypto::strip_pem_framing(""), "");
}

#[test]
fn smime_envelope_prefixes_the_payload() {
    let wrapped = crypto::smime_envelope("QUJD");
    assert!(wrapped.starts_with("MIME-Version:1.0\n"));
    assert!(wrapped.contains("Content-Transfer-Encoding: base64\n\nQUJD"));
    assert!(wrapped.ends_with("QUJD"));
}
