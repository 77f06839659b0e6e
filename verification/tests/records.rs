use puffin::hash_hs::{HandshakeHash, HandshakeHashBuffer, HashAlgorithm, Message, MessagePayload};
use puffin::payload::{Payload, PayloadU16, PayloadU24, PayloadU8, Reader};
use puffin::suites::{
    all_cipher_suites, choose_ciphersuite_preferring_client, choose_ciphersuite_preferring_server,
    compatible_sigscheme_for_suites, reduce_given_sigalg, reduce_given_version, SignatureAlgorithm,
    SignatureScheme, tls13_aes_128_gcm_sha256, tls13_aes_256_gcm_sha384,
    tls13_chacha20_poly1305_sha256, TLS12_VERSION, TLS13_AES_128_GCM_SHA256_ID,
    TLS13_AES_256_GCM_SHA384_ID, TLS13_VERSION, TLS_NULL_WITH_NULL_NULL_ID,
};
use puffin::tls13::{
    make_tls13_aad, unpad_tls13, OpaqueMessage, PlainMessage, Tls13MessageDecrypter,
    Tls13MessageEncrypter,
};
use puffin::suites::AeadAlgorithm;

#[test]
fn hashes_correctly() {
    let mut hhb = HandshakeHashBuffer::new();
    hhb.update_raw(&b"hello".to_vec());
    assert_eq!(hhb.buffer.len(), 5);
    let mut hh = hhb.start_hash(&HashAlgorithm::Sha256);
    assert!(hh.client_auth.is_none());
    hh.update_raw(&b"world".to_vec());
    let h = hh.get_current_hash();
    assert_eq!(h[0], 0x93);
    assert_eq!(h[1], 0x6a);
    assert_eq!(h[2], 0x18);
    assert_eq!(h[3], 0x5c);
}

#[test]
fn buffers_correctly() {
    let mut hhb = HandshakeHashBuffer::new();
    hhb.set_client_auth_enabled();
    hhb.update_raw(&b"hello".to_vec());
    assert_eq!(hhb.buffer.len(), 5);
    let mut hh = hhb.start_hash(&HashAlgorithm::Sha256);
    assert_eq!(hh.client_auth.as_ref().map(|buf| buf.len()), Some(5));
    hh.update_raw(&b"world".to_vec());
    assert_eq!(hh.client_auth.as_ref().map(|buf| buf.len()), Some(10));
    let h = hh.get_current_hash();
    assert_eq!(h[0], 0x93);
    assert_eq!(h[1], 0x6a);
    assert_eq!(h[2], 0x18);
    assert_eq!(h[3], 0x5c);
    let buf = hh.take_handshake_buf();
    assert_eq!(Some(b"helloworld".to_vec()), buf);
}

#[test]
fn abandon() {
    let mut hhb = HandshakeHashBuffer::new();
    hhb.set_client_auth_enabled();
    hhb.update_raw(&b"hello".to_vec());
    assert_eq!(hhb.buffer.len(), 5);
    let mut hh = hhb.start_hash(&HashAlgorithm::Sha256);
    assert_eq!(hh.client_auth.as_ref().map(|buf| buf.len()), Some(5));
    hh.abandon_client_auth();
    assert!(hh.client_auth.is_none());
    hh.update_raw(&b"world".to_vec());
    assert!(hh.client_auth.is_none());
    let h = hh.get_current_hash();
    assert_eq!(h[0], 0x93);
    assert_eq!(h[1], 0x6a);
    assert_eq!(h[2], 0x18);
    assert_eq!(h[3], 0x5c);
}

#[test]
fn transcript_hashes_handshake_messages_only() {
    let mut hh = HandshakeHash::new(&HashAlgorithm::Sha256);
    hh.add_message(&Message {
        payload: MessagePayload::Handshake(b"hello".to_vec()),
    });
    hh.add_message(&Message {
        payload: MessagePayload::Other(b"noise".to_vec()),
    });
    hh.add_message(&Message {
        payload: MessagePayload::Handshake(b"world".to_vec()),
    });
    let h = hh.get_current_hash();
    assert_eq!(&h[0..4], &[0x93, 0x6a, 0x18, 0x5c]);
}

#[test]
fn override_hash_reports_fixed_value() {
    let hh = HandshakeHash::new_override(vec![9, 9, 9], &HashAlgorithm::Sha256);
    assert_eq!(hh.get_current_hash_raw(), vec![9, 9, 9]);
    let mut encoded = Vec::new();
    hh.encode(&mut encoded);
    assert_eq!(encoded, vec![9, 9, 9]);
}

#[test]
fn hello_retry_rollup_restarts_from_framed_digest() {
    let mut hh = HandshakeHash::new(&HashAlgorithm::Sha256);
    hh.update_raw(&b"helloworld".to_vec());
    let digest = hh.get_current_hash();
    hh.rollup_for_hrr();
    // the transcript now starts with a message-hash frame of the digest
    let mut expected = vec![254u8, 0, 0, 32];
    expected.extend_from_slice(&digest);
    assert_eq!(hh.transcript, expected);

    let mut hh2 = HandshakeHash::new(&HashAlgorithm::Sha256);
    hh2.update_raw(&b"helloworld".to_vec());
    let buffer = hh2.into_hrr_buffer();
    assert_eq!(buffer.buffer, expected);
}

#[test]
fn test_client_pref() {
    let client = vec![TLS13_AES_128_GCM_SHA256_ID, TLS13_AES_256_GCM_SHA384_ID];
    let server = vec![tls13_aes_256_gcm_sha384(), tls13_aes_128_gcm_sha256()];
    let chosen = choose_ciphersuite_preferring_client(&client, &server);
    assert!(chosen.is_some());
    assert_eq!(chosen.unwrap().suite(), TLS13_AES_128_GCM_SHA256_ID);
}

#[test]
fn test_server_pref() {
    let client = vec![TLS13_AES_128_GCM_SHA256_ID, TLS13_AES_256_GCM_SHA384_ID];
    let server = vec![tls13_aes_256_gcm_sha384(), tls13_aes_128_gcm_sha256()];
    let chosen = choose_ciphersuite_preferring_server(&client, &server);
    assert!(chosen.is_some());
    assert_eq!(chosen.unwrap().suite(), TLS13_AES_256_GCM_SHA384_ID);
}

#[test]
fn test_pref_fails() {
    assert!(choose_ciphersuite_preferring_client(
        &vec![TLS_NULL_WITH_NULL_NULL_ID],
        &all_cipher_suites()
    )
    .is_none());
    assert!(choose_ciphersuite_preferring_server(
        &vec![TLS_NULL_WITH_NULL_NULL_ID],
        &all_cipher_suites()
    )
    .is_none());
}

#[test]
fn test_scs_is_debug() {
    println!("{:?}", all_cipher_suites());
}

#[test]
fn test_can_resume_to() {
    let chacha = tls13_chacha20_poly1305_sha256();
    let chacha_inner = chacha.tls13().unwrap();
    assert!(tls13_aes_128_gcm_sha256()
        .tls13()
        .unwrap()
        .can_resume_from(chacha_inner)
        .is_some());
    assert!(tls13_aes_256_gcm_sha384()
        .tls13()
        .unwrap()
        .can_resume_from(chacha_inner)
        .is_none());
}

#[test]
fn reduce_and_compatibility_respect_schemes() {
    let all = all_cipher_suites();
    assert_eq!(all.len(), 9);
    assert_eq!(puffin::suites::default_cipher_suites().len(), 9);
    let rsa_only = reduce_given_sigalg(&all, SignatureAlgorithm::Rsa);
    // every TLS 1.3 suite stays; of the TLS 1.2 suites the RSA family
    assert_eq!(rsa_only.len(), 6);
    let tls12_only = reduce_given_version(&all, TLS12_VERSION);
    assert_eq!(tls12_only.len(), 6);
    let tls13_only = reduce_given_version(&all, TLS13_VERSION);
    assert_eq!(tls13_only.len(), 3);
    assert!(compatible_sigscheme_for_suites(
        SignatureScheme::RsaPssSha256,
        &tls12_only
    ));
    assert!(!compatible_sigscheme_for_suites(
        SignatureScheme::Ed25519,
        &tls12_only
    ));
}

#[test]
fn unpad_strips_zeros_and_returns_content_type() {
    let mut v = vec![1u8, 2, 22, 0, 0];
    assert_eq!(unpad_tls13(&mut v), 22);
    assert_eq!(v, vec![1, 2]);

    let mut all_zero = vec![0u8, 0];
    assert_eq!(unpad_tls13(&mut all_zero), 0);
    assert!(all_zero.is_empty());

    let mut empty: Vec<u8> = Vec::new();
    assert_eq!(unpad_tls13(&mut empty), 0);
}

#[test]
fn aad_is_five_bytes_with_length() {
    let aad = make_tls13_aad(0x1234);
    assert_eq!(aad, vec![0x17, 0x3, 0x3, 0x12, 0x34]);
}

#[test]
fn record_encrypts_and_decrypts_round_trip() {
    let enc = Tls13MessageEncrypter {
        alg: AeadAlgorithm::Aes128Gcm,
        key: vec![7u8; 16],
        iv: vec![3u8; 12],
    };
    let dec = Tls13MessageDecrypter {
        alg: AeadAlgorithm::Aes128Gcm,
        key: vec![7u8; 16],
        iv: vec![3u8; 12],
    };
    let plain = PlainMessage {
        typ: 22,
        version: 0x0304,
        payload: Payload::new(b"handshake bytes".to_vec()),
    };
    let sealed = enc.encrypt(&plain, 5).unwrap();
    assert_eq!(sealed.typ, 23);
    assert_eq!(sealed.version, 0x0303);
    assert_eq!(sealed.payload.0.len(), b"handshake bytes".len() + 1 + 16);

    let opened = dec.decrypt(sealed, 5).unwrap();
    assert_eq!(opened.typ, 22);
    assert_eq!(opened.version, 0x0304);
    assert_eq!(opened.payload.0, b"handshake bytes".to_vec());
}

#[test]
fn record_decryption_rejects_tampering() {
    let enc = Tls13MessageEncrypter {
        alg: AeadAlgorithm::Aes128Gcm,
        key: vec![7u8; 16],
        iv: vec![3u8; 12],
    };
    let dec = Tls13MessageDecrypter {
        alg: AeadAlgorithm::Aes128Gcm,
        key: vec![7u8; 16],
        iv: vec![3u8; 12],
    };
    let plain = PlainMessage {
        typ: 22,
        version: 0x0304,
        payload: Payload::new(b"secret".to_vec()),
    };
    let mut sealed = enc.encrypt(&plain, 0).unwrap();
    sealed.payload.0[0] ^= 1;
    match dec.decrypt(sealed, 0) {
        Err(puffin::error::Error::Stream(msg)) => assert_eq!(msg, "decrypt failed"),
        other => panic!("expected an authentication failure, got {:?}", other),
    }

    let short = OpaqueMessage {
        typ: 23,
        version: 0x0303,
        payload: Payload::new(vec![1, 2, 3]),
    };
    match dec.decrypt(short, 0) {
        Err(puffin::error::Error::Stream(msg)) => assert_eq!(msg, "decrypt failed"),
        other => panic!("expected a too-short record error, got {:?}", other),
    }

    // an all-zero plaintext has no content type and is rejected
    let padded_only = PlainMessage {
        typ: 0,
        version: 0x0304,
        payload: Payload::new(vec![0u8; 4]),
    };
    // sealing embeds the zero content type, so the opened record trims
    // to nothing
    let sealed_zero = enc.encrypt(&padded_only, 1).unwrap();
    match dec.decrypt(sealed_zero, 1) {
        Err(puffin::error::Error::Stream(msg)) => {
            assert_eq!(msg, "peer sent bad inner plaintext")
        }
        other => panic!("expected a bad inner plaintext error, got {:?}", other),
    }
}

#[test]
fn derived_encrypter_and_decrypter_are_counterparts() {
    let suite = tls13_aes_128_gcm_sha256();
    let inner = suite.tls13().unwrap();
    let secret = vec![0x42u8; 7];
    let enc = inner.derive_encrypter(&secret);
    let dec = inner.derive_decrypter(&secret);
    // the derived key has the algorithm's length, not the secret's
    assert_eq!(enc.key.len(), 16);
    assert_eq!(enc.iv.len(), 12);
    assert_ne!(enc.key, vec![0x42u8; 16]);

    let plain = PlainMessage {
        typ: 22,
        version: 0x0304,
        payload: Payload::new(b"derived".to_vec()),
    };
    let sealed = enc.encrypt(&plain, 9).unwrap();
    let opened = dec.decrypt(sealed, 9).unwrap();
    assert_eq!(opened.payload.0, b"derived".to_vec());
    assert_eq!(opened.typ, 22);

    // a different secret opens nothing sealed under the first
    let other = inner.derive_decrypter(&vec![0x43u8; 7]);
    let sealed_again = enc.encrypt(&plain, 10).unwrap();
    assert!(other.decrypt(sealed_again, 10).is_err());
}

#[test]
fn payloads_encode_with_length_prefixes() {
    let mut out = Vec::new();
    PayloadU8::new(vec![1, 2, 3]).encode(&mut out);
    assert_eq!(out, vec![3, 1, 2, 3]);

    let mut out16 = Vec::new();
    PayloadU16::new(vec![9, 8]).encode(&mut out16);
    assert_eq!(out16, vec![0, 2, 9, 8]);

    let mut out24 = Vec::new();
    PayloadU24::new(vec![5]).encode(&mut out24);
    assert_eq!(out24, vec![0, 0, 1, 5]);

    let mut bare = Vec::new();
    Payload::new(vec![4, 4]).encode(&mut bare);
    assert_eq!(bare, vec![4, 4]);
}

#[test]
fn payloads_read_back_what_they_encode() {
    let mut out = Vec::new();
    PayloadU16::new(vec![9, 8, 7]).encode(&mut out);
    let mut reader = Reader::init(out);
    let back = PayloadU16::read(&mut reader).unwrap();
    assert_eq!(back.0, vec![9, 8, 7]);
    assert!(!reader.any_left());

    let mut out8 = Vec::new();
    PayloadU8::new(vec![1]).encode(&mut out8);
    let mut reader8 = Reader::init(out8);
    assert_eq!(PayloadU8::read(&mut reader8).unwrap().into_inner(), vec![1]);

    let mut out24 = Vec::new();
    PayloadU24::new(vec![1, 2]).encode(&mut out24);
    let mut reader24 = Reader::init(out24);
    assert_eq!(PayloadU24::read(&mut reader24).unwrap().0, vec![1, 2]);

    // a declared length past the remaining bytes rejects the read and
    // leaves the reader where it was
    let mut truncated = Reader::init(vec![0, 5, 1]);
    assert!(PayloadU16::read(&mut truncated).is_none());
    assert_eq!(truncated.cursor, 0);
    assert_eq!(Payload::read(&mut truncated).0, vec![0, 5, 1]);

    let mut rest_reader = Reader::init(vec![1, 2, 3]);
    assert_eq!(Payload::read(&mut rest_reader).0, vec![1, 2, 3]);

    assert!(PayloadU8::empty().0.is_empty());
    assert_eq!(PayloadU16::empty().0.len(), 0);
    assert_eq!(Payload::empty().0.len(), 0);
}

#[test]
fn handshake_hash_reads_as_override() {
    let mut reader = Reader::init(vec![0xaa, 0xbb]);
    let hh = HandshakeHash::read(&mut reader).unwrap();
    assert_eq!(hh.algorithm(), HashAlgorithm::Sha256);
    assert_eq!(hh.get_current_hash_raw(), vec![0xaa, 0xbb]);
}

#[test]
fn buffered_hash_given_extra_matches_full_hash() {
    let mut hhb = HandshakeHashBuffer::new();
    hhb.update_raw(&b"hello".to_vec());
    let given = hhb.get_hash_given(&HashAlgorithm::Sha256, &b"world".to_vec());
    let mut hh = hhb.start_hash(&HashAlgorithm::Sha256);
    hh.update_raw(&b"world".to_vec());
    assert_eq!(given, hh.get_current_hash());
    assert_eq!(given, hh.get_hash_given(&Vec::new()));
}
