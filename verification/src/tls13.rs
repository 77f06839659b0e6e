use vstd::prelude::*;
use crate::error::Error;
use crate::hash_hs::{HashAlgorithm, spec_hash_code, spec_hash_len};
use crate::payload::Payload;
use crate::suites::{AeadAlgorithm, Tls13CipherSuite};

verus! {

/// The wire identifier of the application-data content type.
pub const CONTENT_TYPE_APPLICATION_DATA: u8 = 23;

/// The largest plaintext fragment a record may carry.
pub const MAX_FRAGMENT_LEN: usize = 16384;

/// The tag length of every supported AEAD algorithm.
pub const AEAD_TAG_LEN: usize = 16;

/// The identity of an AEAD algorithm, naming it in sealed results.
pub open spec fn spec_aead_code(a: AeadAlgorithm) -> u64 {
    match a {
        AeadAlgorithm::Aes128Gcm => 1,
        AeadAlgorithm::Aes256Gcm => 2,
        AeadAlgorithm::Chacha20Poly1305 => 3,
    }
}

/// The key length of an AEAD algorithm.
pub open spec fn spec_aead_key_len(a: AeadAlgorithm) -> nat {
    match a {
        AeadAlgorithm::Aes128Gcm => 16,
        AeadAlgorithm::Aes256Gcm => 32,
        AeadAlgorithm::Chacha20Poly1305 => 32,
    }
}

/// What sealing yields: ciphertext with its tag appended, a function
/// of algorithm, key, nonce, associated data and plaintext alone.
pub uninterp spec fn sealed_of(
    alg: u64,
    key: Seq<u8>,
    nonce: Seq<u8>,
    aad: Seq<u8>,
    msg: Seq<u8>,
) -> Seq<u8>;

/// What opening yields: the plaintext when the ciphertext
/// authenticates under the same key, nonce and associated data, and
/// nothing otherwise; a function of its arguments alone.
pub uninterp spec fn opened_of(
    alg: u64,
    key: Seq<u8>,
    nonce: Seq<u8>,
    aad: Seq<u8>,
    ct: Seq<u8>,
) -> Option<Seq<u8>>;

/// Relies on `ring::aead::LessSafeKey::seal_in_place_append_tag`: the
/// sealed bytes are a function of algorithm, key, nonce, associated
/// data and plaintext; the tag adds sixteen bytes; what was sealed
/// opens back to the plaintext under the same parameters; and with a
/// fitting key and nonce, sealing fails only past the algorithm's
/// input limit, which is above four gibibytes for all three
/// algorithms.
#[verifier::external_body]
fn aead_seal(alg: &AeadAlgorithm, key: &Vec<u8>, nonce: &Vec<u8>, aad: &Vec<u8>, data: &Vec<u8>)
    -> (r: Result<Vec<u8>, ()>)
    requires
        key@.len() == spec_aead_key_len(*alg),
        nonce@.len() == 12,
    ensures
        data@.len() < 0x1_0000_0000 ==> r is Ok,
        match r {
            Ok(ct) => {
                &&& ct@ == sealed_of(spec_aead_code(*alg), key@, nonce@, aad@, data@)
                &&& ct@.len() == data@.len() + AEAD_TAG_LEN
                &&& opened_of(spec_aead_code(*alg), key@, nonce@, aad@, ct@) == Some(data@)
            },
            Err(_) => true,
        },
{
    let a = match alg {
        AeadAlgorithm::Aes128Gcm => &ring::aead::AES_128_GCM,
        AeadAlgorithm::Aes256Gcm => &ring::aead::AES_256_GCM,
        AeadAlgorithm::Chacha20Poly1305 => &ring::aead::CHACHA20_POLY1305,
    };
    let unbound = ring::aead::UnboundKey::new(a, key.as_slice()).map_err(|_| ())?;
    let lsk = ring::aead::LessSafeKey::new(unbound);
    let n = ring::aead::Nonce::try_assume_unique_for_key(nonce.as_slice()).map_err(|_| ())?;
    let mut in_out = data.clone();
    lsk.seal_in_place_append_tag(n, ring::aead::Aad::from(aad.as_slice()), &mut in_out).map_err(
        |_| (),
    )?;
    Ok(in_out)
}

/// Relies on `ring::aead::LessSafeKey::open_in_place`: opening is a
/// function of algorithm, key, nonce, associated data and ciphertext
/// alone; it yields the plaintext, sixteen bytes shorter, exactly when
/// the ciphertext authenticates.
#[verifier::external_body]
fn aead_open(alg: &AeadAlgorithm, key: &Vec<u8>, nonce: &Vec<u8>, aad: &Vec<u8>, ct: &Vec<u8>)
    -> (r: Result<Vec<u8>, ()>)
    requires
        key@.len() == spec_aead_key_len(*alg),
        nonce@.len() == 12,
        ct@.len() >= AEAD_TAG_LEN,
    ensures
        match r {
            Ok(pt) => opened_of(spec_aead_code(*alg), key@, nonce@, aad@, ct@) == Some(pt@) && pt@
                .len() + AEAD_TAG_LEN == ct@.len(),
            Err(_) => opened_of(spec_aead_code(*alg), key@, nonce@, aad@, ct@) is None,
        },
{
    let a = match alg {
        AeadAlgorithm::Aes128Gcm => &ring::aead::AES_128_GCM,
        AeadAlgorithm::Aes256Gcm => &ring::aead::AES_256_GCM,
        AeadAlgorithm::Chacha20Poly1305 => &ring::aead::CHACHA20_POLY1305,
    };
    let unbound = ring::aead::UnboundKey::new(a, key.as_slice()).map_err(|_| ())?;
    let lsk = ring::aead::LessSafeKey::new(unbound);
    let n = ring::aead::Nonce::try_assume_unique_for_key(nonce.as_slice()).map_err(|_| ())?;
    let mut in_out = ct.clone();
    let plain_len = lsk.open_in_place(n, ring::aead::Aad::from(aad.as_slice()), &mut in_out)
        .map_err(|_| ())?.len();
    in_out.truncate(plain_len);
    Ok(in_out)
}

/// The keying material HKDF-Expand yields: a function of the hash,
/// the secret, the info bytes and the length alone.
pub uninterp spec fn hkdf_expand_of(alg: u64, secret: Seq<u8>, info: Seq<u8>, out_len: nat) -> Seq<
    u8,
>;

/// Relies on `ring::hkdf::Prk::expand` over a secret taken as a
/// pseudorandom key: the result is the leading `out_len` bytes of the
/// expanded keying material, a function of hash, secret, info and
/// length alone. Within one hash block the expansion never fails.
#[verifier::external_body]
fn hkdf_expand(hash: &HashAlgorithm, secret: &Vec<u8>, info: &Vec<u8>, out_len: usize) -> (r: Vec<
    u8,
>)
    requires
        out_len <= spec_hash_len(*hash),
    ensures
        r@ == hkdf_expand_of(spec_hash_code(*hash), secret@, info@, out_len as nat),
        r@.len() == out_len,
{
    let (a, digest_len) = match hash {
        HashAlgorithm::Sha256 => (ring::hkdf::HKDF_SHA256, 32),
        HashAlgorithm::Sha384 => (ring::hkdf::HKDF_SHA384, 48),
        HashAlgorithm::Sha512 => (ring::hkdf::HKDF_SHA512, 64),
    };
    let prk = ring::hkdf::Prk::new_less_safe(a, secret.as_slice());
    let info_refs: [&[u8]; 1] = [info.as_slice()];
    let mut full = vec![0u8; digest_len];
    if let Ok(okm) = prk.expand(&info_refs, a) {
        let _ = okm.fill(&mut full);
    }
    full.truncate(out_len);
    full
}

/// The info bytes of a TLS 1.3 HKDF label: the output length, the
/// label under its protocol prefix, and the context.
pub open spec fn spec_hkdf_label(out_len: u16, label: Seq<u8>, context: Seq<u8>) -> Seq<u8> {
    crate::persist::spec_u16_be(out_len) + seq![(6 + label.len()) as u8] + seq![
        0x74u8,
        0x6cu8,
        0x73u8,
        0x31u8,
        0x33u8,
        0x20u8,
    ] + label + seq![context.len() as u8] + context
}

/// Builds the info bytes of a TLS 1.3 HKDF label.
fn make_hkdf_label(out_len: u16, label: &Vec<u8>, context: &Vec<u8>) -> (r: Vec<u8>)
    requires
        label@.len() + 6 <= u8::MAX,
        context@.len() <= u8::MAX,
    ensures
        r@ == spec_hkdf_label(out_len, label@, context@),
{
    let mut out: Vec<u8> = Vec::new();
    out.push((out_len >> 8) as u8);
    out.push(out_len as u8);
    out.push(6 + label.len() as u8);
    out.push(0x74);
    out.push(0x6c);
    out.push(0x73);
    out.push(0x31);
    out.push(0x33);
    out.push(0x20);
    out.extend_from_slice(label.as_slice());
    out.push(context.len() as u8);
    out.extend_from_slice(context.as_slice());
    proof {
        assert(out@ =~= spec_hkdf_label(out_len, label@, context@));
    }
    out
}

/// The label naming the traffic key.
pub open spec fn spec_key_label() -> Seq<u8> {
    seq![0x6bu8, 0x65u8, 0x79u8]
}

/// The label naming the traffic IV.
pub open spec fn spec_iv_label() -> Seq<u8> {
    seq![0x69u8, 0x76u8]
}

/// The traffic key a secret derives for an AEAD algorithm under a
/// hash.
pub open spec fn spec_traffic_key(hash: HashAlgorithm, alg: AeadAlgorithm, secret: Seq<u8>) -> Seq<
    u8,
> {
    hkdf_expand_of(
        spec_hash_code(hash),
        secret,
        spec_hkdf_label(
            spec_aead_key_len(alg) as u16,
            spec_key_label(),
            Seq::empty(),
        ),
        spec_aead_key_len(alg),
    )
}

/// The traffic IV a secret derives under a hash.
pub open spec fn spec_traffic_iv(hash: HashAlgorithm, secret: Seq<u8>) -> Seq<u8> {
    hkdf_expand_of(
        spec_hash_code(hash),
        secret,
        spec_hkdf_label(12, spec_iv_label(), Seq::empty()),
        12,
    )
}

/// Derives the traffic key of the suite's AEAD algorithm from a
/// secret.
fn derive_traffic_key(hash: &HashAlgorithm, alg: AeadAlgorithm, secret: &Vec<u8>) -> (r: Vec<u8>)
    ensures
        r@ == spec_traffic_key(*hash, alg, secret@),
        r@.len() == spec_aead_key_len(alg),
{
    let key_len: usize = match alg {
        AeadAlgorithm::Aes128Gcm => 16,
        AeadAlgorithm::Aes256Gcm => 32,
        AeadAlgorithm::Chacha20Poly1305 => 32,
    };
    let mut label: Vec<u8> = Vec::new();
    label.push(0x6b);
    label.push(0x65);
    label.push(0x79);
    proof {
        assert(label@ =~= spec_key_label());
    }
    let context: Vec<u8> = Vec::new();
    proof {
        assert(context@ =~= Seq::<u8>::empty());
    }
    let info = make_hkdf_label(key_len as u16, &label, &context);
    hkdf_expand(hash, secret, &info, key_len)
}

/// Derives the traffic IV from a secret.
fn derive_traffic_iv(hash: &HashAlgorithm, secret: &Vec<u8>) -> (r: Vec<u8>)
    ensures
        r@ == spec_traffic_iv(*hash, secret@),
        r@.len() == 12,
{
    let mut label: Vec<u8> = Vec::new();
    label.push(0x69);
    label.push(0x76);
    proof {
        assert(label@ =~= spec_iv_label());
    }
    let context: Vec<u8> = Vec::new();
    proof {
        assert(context@ =~= Seq::<u8>::empty());
    }
    let info = make_hkdf_label(12, &label, &context);
    hkdf_expand(hash, secret, &info, 12)
}

impl Tls13CipherSuite {
    /// Derives a record sealer from a traffic secret: the suite's AEAD
    /// algorithm under the key and IV the secret expands to.
    pub fn derive_encrypter(&self, secret: &Vec<u8>) -> (r: Tls13MessageEncrypter)
        ensures
            r.alg == self.common.aead_algorithm,
            r.key@ == spec_traffic_key(self.hkdf_algorithm, self.common.aead_algorithm, secret@),
            r.key@.len() == spec_aead_key_len(r.alg),
            r.iv@ == spec_traffic_iv(self.hkdf_algorithm, secret@),
            r.iv@.len() == 12,
    {
        let alg = self.common.aead_algorithm;
        let key = derive_traffic_key(&self.hkdf_algorithm, alg, secret);
        let iv = derive_traffic_iv(&self.hkdf_algorithm, secret);
        Tls13MessageEncrypter { alg, key, iv }
    }

    /// Derives a record opener from a traffic secret: the counterpart
    /// of `derive_encrypter`, so what one seals the other opens.
    pub fn derive_decrypter(&self, secret: &Vec<u8>) -> (r: Tls13MessageDecrypter)
        ensures
            r.alg == self.common.aead_algorithm,
            r.key@ == spec_traffic_key(self.hkdf_algorithm, self.common.aead_algorithm, secret@),
            r.key@.len() == spec_aead_key_len(r.alg),
            r.iv@ == spec_traffic_iv(self.hkdf_algorithm, secret@),
            r.iv@.len() == 12,
    {
        let alg = self.common.aead_algorithm;
        let key = derive_traffic_key(&self.hkdf_algorithm, alg, secret);
        let iv = derive_traffic_iv(&self.hkdf_algorithm, secret);
        Tls13MessageDecrypter { alg, key, iv }
    }
}

/// The per-record nonce: the write IV with the sequence number folded
/// into its tail, big-endian.
pub open spec fn spec_make_nonce(iv: Seq<u8>, sequence: u64) -> Seq<u8> {
    Seq::new(iv.len(), |i: int|
        if i < 4 {
            iv[i]
        } else {
            iv[i] ^ crate::persist::spec_u64_be(sequence)[i - 4]
        }
    )
}

/// Folds the sequence number into the write IV.
pub fn make_nonce(iv: &Vec<u8>, sequence: u64) -> (r: Vec<u8>)
    requires
        iv@.len() == 12,
    ensures
        r@ == spec_make_nonce(iv@, sequence),
        r@.len() == 12,
{
    let mut seq_bytes: Vec<u8> = Vec::new();
    seq_bytes.push((sequence >> 56) as u8);
    seq_bytes.push((sequence >> 48) as u8);
    seq_bytes.push((sequence >> 40) as u8);
    seq_bytes.push((sequence >> 32) as u8);
    seq_bytes.push((sequence >> 24) as u8);
    seq_bytes.push((sequence >> 16) as u8);
    seq_bytes.push((sequence >> 8) as u8);
    seq_bytes.push(sequence as u8);
    proof {
        assert(seq_bytes@ =~= crate::persist::spec_u64_be(sequence));
    }
    let mut out: Vec<u8> = Vec::new();
    let mut i: usize = 0;
    while i < 12
        invariant
            i <= 12,
            iv@.len() == 12,
            seq_bytes@ == crate::persist::spec_u64_be(sequence),
            seq_bytes@.len() == 8,
            out@ =~= spec_make_nonce(iv@, sequence).take(i as int),
        decreases 12 - i,
    {
        if i < 4 {
            out.push(iv[i]);
        } else {
            out.push(iv[i] ^ seq_bytes[i - 4]);
        }
        proof {
            assert(out@ =~= spec_make_nonce(iv@, sequence).take(i + 1 as int));
        }
        i = i + 1;
    }
    proof {
        assert(spec_make_nonce(iv@, sequence).take(12) =~= spec_make_nonce(iv@, sequence));
    }
    out
}

/// The additional data of a TLS 1.3 record: content type
/// application-data, legacy version, and the record length.
pub open spec fn spec_tls13_aad(len: nat) -> Seq<u8> {
    seq![0x17u8, 0x3u8, 0x3u8, ((len as u64) >> 8) as u8, len as u8]
}

/// Builds the additional data of a TLS 1.3 record.
pub fn make_tls13_aad(len: usize) -> (r: Vec<u8>)
    requires
        len < 0x10000,
    ensures
        r@ == spec_tls13_aad(len as nat),
{
    let mut out: Vec<u8> = Vec::new();
    out.push(0x17);
    out.push(0x3);
    out.push(0x3);
    out.push(((len as u64) >> 8) as u8);
    out.push(len as u8);
    proof {
        assert(out@ =~= spec_tls13_aad(len as nat));
    }
    out
}

/// The bytes with their trailing zeros removed.
pub open spec fn spec_trim_zeros(s: Seq<u8>) -> Seq<u8>
    decreases s,
{
    if s.len() > 0 && s.last() == 0 {
        spec_trim_zeros(s.drop_last())
    } else {
        s
    }
}

/// Strips the padding of a TLS 1.3 inner plaintext: pops trailing
/// zeros, then pops and returns the content type; zero when nothing is
/// left.
pub fn unpad_tls13(v: &mut Vec<u8>) -> (r: u8)
    ensures
        r == if spec_trim_zeros(old(v)@).len() == 0 {
            0u8
        } else {
            spec_trim_zeros(old(v)@).last()
        },
        final(v)@ == if spec_trim_zeros(old(v)@).len() == 0 {
            spec_trim_zeros(old(v)@)
        } else {
            spec_trim_zeros(old(v)@).drop_last()
        },
{
    let ghost orig = old(v)@;
    loop
        invariant
            spec_trim_zeros(orig) == spec_trim_zeros(v@),
            orig == old(v)@,
        decreases v@.len(),
    {
        match v.pop() {
            Some(b) => {
                if b != 0 {
                    proof {
                        assert(spec_trim_zeros(orig) =~= v@.push(b));
                    }
                    return b;
                }
            },
            None => {
                return 0;
            },
        }
    }
}

/// An opaque (possibly encrypted) record.
#[derive(Debug)]
pub struct OpaqueMessage {
    pub typ: u8,
    pub version: u16,
    pub payload: Payload,
}

/// A decrypted record.
#[derive(Debug)]
pub struct PlainMessage {
    pub typ: u8,
    pub version: u16,
    pub payload: Payload,
}

/// A TLS 1.3 record sealer: its AEAD algorithm, key and write IV.
#[derive(Debug)]
pub struct Tls13MessageEncrypter {
    pub alg: AeadAlgorithm,
    pub key: Vec<u8>,
    pub iv: Vec<u8>,
}

/// A TLS 1.3 record opener: its AEAD algorithm, key and write IV.
#[derive(Debug)]
pub struct Tls13MessageDecrypter {
    pub alg: AeadAlgorithm,
    pub key: Vec<u8>,
    pub iv: Vec<u8>,
}

/// What a sealed record holds: the plaintext with the real content
/// type appended, sealed under the record nonce and additional data.
pub open spec fn spec_sealed_record(
    alg: AeadAlgorithm,
    key: Seq<u8>,
    iv: Seq<u8>,
    payload: Seq<u8>,
    typ: u8,
    sequence: u64,
) -> Seq<u8> {
    sealed_of(
        spec_aead_code(alg),
        key,
        spec_make_nonce(iv, sequence),
        spec_tls13_aad((payload.len() + 1 + AEAD_TAG_LEN) as nat),
        payload + seq![typ],
    )
}

impl Tls13MessageEncrypter {
    /// Seals a record: the content type joins the plaintext inside the
    /// encryption, and the record goes out as application data under
    /// the legacy version. A fragment-sized record always seals.
    pub fn encrypt(&self, msg: &PlainMessage, sequence: u64) -> (r: Result<OpaqueMessage, Error>)
        requires
            self.key@.len() == spec_aead_key_len(self.alg),
            self.iv@.len() == 12,
            msg.payload.0@.len() <= MAX_FRAGMENT_LEN,
        ensures
            r matches Ok(om) && ({
                &&& om.typ == CONTENT_TYPE_APPLICATION_DATA
                &&& om.version == 0x0303
                &&& om.payload.0@ == spec_sealed_record(
                    self.alg,
                    self.key@,
                    self.iv@,
                    msg.payload.0@,
                    msg.typ,
                    sequence,
                )
            }),
    {
        let total_len = msg.payload.0.len() + 1 + AEAD_TAG_LEN;
        let mut payload = vstd::slice::slice_to_vec(msg.payload.0.as_slice());
        payload.push(msg.typ);
        proof {
            assert(payload@ =~= msg.payload.0@ + seq![msg.typ]);
        }
        let nonce = make_nonce(&self.iv, sequence);
        let aad = make_tls13_aad(total_len);
        match aead_seal(&self.alg, &self.key, &nonce, &aad, &payload) {
            Ok(ct) => Ok(
                OpaqueMessage {
                    typ: CONTENT_TYPE_APPLICATION_DATA,
                    version: 0x0303,
                    payload: Payload::new(ct),
                },
            ),
            Err(_) => vstd::pervasive::unreached(),
        }
    }
}

/// Why a record is rejected, with the message reported: too short or
/// failing authentication; an oversized opened plaintext; a plaintext
/// that trims to nothing, so it carries no content type; or a trimmed
/// payload past the fragment limit. `None` when the record is
/// accepted.
pub open spec fn spec_decrypt_failure(
    alg: AeadAlgorithm,
    key: Seq<u8>,
    iv: Seq<u8>,
    ct: Seq<u8>,
    sequence: u64,
) -> Option<Seq<char>> {
    let opened = opened_of(
        spec_aead_code(alg),
        key,
        spec_make_nonce(iv, sequence),
        spec_tls13_aad(ct.len()),
        ct,
    );
    if ct.len() < AEAD_TAG_LEN {
        Some("decrypt failed"@)
    } else {
        match opened {
            None => Some("decrypt failed"@),
            Some(pt) => if pt.len() > MAX_FRAGMENT_LEN + 1 {
                Some("peer sent oversized record"@)
            } else if spec_trim_zeros(pt).len() == 0 {
                Some("peer sent bad inner plaintext"@)
            } else if spec_trim_zeros(pt).drop_last().len() > MAX_FRAGMENT_LEN {
                Some("peer sent oversized record"@)
            } else {
                None
            },
        }
    }
}

impl Tls13MessageDecrypter {
    /// Opens a record and strips the inner plaintext padding. The
    /// record is rejected exactly when `spec_decrypt_failure` says so,
    /// with exactly that message; otherwise the decrypted message
    /// carries the trimmed payload under its real content type.
    pub fn decrypt(&self, msg: OpaqueMessage, sequence: u64) -> (r: Result<PlainMessage, Error>)
        requires
            self.key@.len() == spec_aead_key_len(self.alg),
            self.iv@.len() == 12,
            msg.payload.0@.len() < 0x10000,
        ensures
            ({
                let opened = opened_of(
                    spec_aead_code(self.alg),
                    self.key@,
                    spec_make_nonce(self.iv@, sequence),
                    spec_tls13_aad(msg.payload.0@.len()),
                    msg.payload.0@,
                );
                match spec_decrypt_failure(
                    self.alg,
                    self.key@,
                    self.iv@,
                    msg.payload.0@,
                    sequence,
                ) {
                    Some(m) => r matches Err(Error::Stream(em)) && em@ == m,
                    None => r matches Ok(pm) && ({
                        &&& opened matches Some(pt)
                        &&& pt.len() <= MAX_FRAGMENT_LEN + 1
                        &&& spec_trim_zeros(pt).len() > 0
                        &&& pm.typ == spec_trim_zeros(pt).last()
                        &&& pm.typ != 0
                        &&& pm.payload.0@ == spec_trim_zeros(pt).drop_last()
                        &&& pm.payload.0@.len() <= MAX_FRAGMENT_LEN
                        &&& pm.version == 0x0304
                    }),
                }
            }),
    {
        if msg.payload.0.len() < AEAD_TAG_LEN {
            return Err(Error::Stream(String::from_str("decrypt failed")));
        }
        let nonce = make_nonce(&self.iv, sequence);
        let aad = make_tls13_aad(msg.payload.0.len());
        let mut payload = match aead_open(&self.alg, &self.key, &nonce, &aad, &msg.payload.0) {
            Ok(pt) => pt,
            Err(_) => {
                return Err(Error::Stream(String::from_str("decrypt failed")));
            },
        };
        if payload.len() > MAX_FRAGMENT_LEN + 1 {
            return Err(Error::Stream(String::from_str("peer sent oversized record")));
        }
        let typ = unpad_tls13(&mut payload);
        if typ == 0 {
            proof {
                lemma_trim_zeros_last(opened_pt(self, &msg, sequence));
            }
            return Err(Error::Stream(String::from_str("peer sent bad inner plaintext")));
        }
        if payload.len() > MAX_FRAGMENT_LEN {
            return Err(Error::Stream(String::from_str("peer sent oversized record")));
        }
        proof {
            lemma_trim_zeros_shorter(opened_pt(self, &msg, sequence));
        }
        Ok(PlainMessage { typ, version: 0x0304, payload: Payload::new(payload) })
    }
}

/// The plaintext a record opens to, if it authenticates.
pub open spec fn opened_pt(d: &Tls13MessageDecrypter, msg: &OpaqueMessage, sequence: u64) -> Seq<
    u8,
> {
    match opened_of(
        spec_aead_code(d.alg),
        d.key@,
        spec_make_nonce(d.iv@, sequence),
        spec_tls13_aad(msg.payload.0@.len()),
        msg.payload.0@,
    ) {
        Some(pt) => pt,
        None => Seq::empty(),
    }
}

/// A trimmed byte string is empty or ends in a nonzero byte.
pub proof fn lemma_trim_zeros_last(s: Seq<u8>)
    ensures
        spec_trim_zeros(s).len() > 0 ==> spec_trim_zeros(s).last() != 0,
    decreases s,
{
    if s.len() > 0 && s.last() == 0 {
        lemma_trim_zeros_last(s.drop_last());
    }
}

/// Trimming never lengthens the bytes.
pub proof fn lemma_trim_zeros_shorter(s: Seq<u8>)
    ensures
        spec_trim_zeros(s).len() <= s.len(),
    decreases s,
{
    if s.len() > 0 && s.last() == 0 {
        lemma_trim_zeros_shorter(s.drop_last());
    }
}

} // verus!
