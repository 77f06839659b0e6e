use vstd::prelude::*;
use crate::payload::{Reader, spec_u24_be};

verus! {

/// The digest algorithms the handshake transcript can run on.
#[derive(Debug, Clone, Copy, PartialEq, Eq, Structural)]
pub enum HashAlgorithm {
    Sha256,
    Sha384,
    Sha512,
}

/// The identity of a digest algorithm, naming it in digest results.
pub open spec fn spec_hash_code(a: HashAlgorithm) -> u64 {
    match a {
        HashAlgorithm::Sha256 => 1,
        HashAlgorithm::Sha384 => 2,
        HashAlgorithm::Sha512 => 3,
    }
}

/// How many bytes a digest of the algorithm has.
pub open spec fn spec_hash_len(a: HashAlgorithm) -> nat {
    match a {
        HashAlgorithm::Sha256 => 32,
        HashAlgorithm::Sha384 => 48,
        HashAlgorithm::Sha512 => 64,
    }
}

/// The digest an algorithm computes over bytes: a function of the
/// algorithm and the bytes alone.
pub uninterp spec fn digest_of(alg: u64, data: Seq<u8>) -> Seq<u8>;

/// Relies on `ring::digest::digest`: the digest depends on the
/// algorithm and the data alone, and has the algorithm's output
/// length.
#[verifier::external_body]
fn ring_digest(alg: &HashAlgorithm, data: &Vec<u8>) -> (r: Vec<u8>)
    ensures
        r@ == digest_of(spec_hash_code(*alg), data@),
        r@.len() == spec_hash_len(*alg),
{
    let a = match alg {
        HashAlgorithm::Sha256 => &ring::digest::SHA256,
        HashAlgorithm::Sha384 => &ring::digest::SHA384,
        HashAlgorithm::Sha512 => &ring::digest::SHA512,
    };
    ring::digest::digest(a, data.as_slice()).as_ref().to_vec()
}

/// A handshake message as the transcript sees it: either handshake
/// payload bytes, which are hashed, or anything else, which is not.
#[derive(Debug)]
pub enum MessagePayload {
    /// A handshake message, carrying its encoding.
    Handshake(Vec<u8>),
    /// Any other protocol message.
    Other(Vec<u8>),
}

/// A protocol message fed to the transcript.
#[derive(Debug)]
pub struct Message {
    pub payload: MessagePayload,
}

/// The handshake-hash framing of a digest: a message-hash handshake
/// message holding the digest bytes.
pub open spec fn spec_handshake_hash_frame(hash: Seq<u8>) -> Seq<u8> {
    seq![254u8] + spec_u24_be(hash.len() as u32) + hash
}

/// Frames a digest as a message-hash handshake message.
fn build_handshake_hash(hash: &Vec<u8>) -> (r: Vec<u8>)
    requires
        hash@.len() < 0x100_0000,
    ensures
        r@ == spec_handshake_hash_frame(hash@),
{
    let mut out: Vec<u8> = Vec::new();
    out.push(254);
    let len: u32 = hash.len() as u32;
    out.push((len >> 16) as u8);
    out.push((len >> 8) as u8);
    out.push(len as u8);
    out.extend_from_slice(hash.as_slice());
    proof {
        assert(out@ =~= spec_handshake_hash_frame(hash@));
    }
    out
}

/// Early-stage buffering of handshake payloads: before the digest
/// algorithm is known, messages are only collected.
#[derive(Debug)]
pub struct HandshakeHashBuffer {
    /// The collected handshake payload bytes.
    pub buffer: Vec<u8>,
    /// Whether the full log is kept for client authentication.
    pub client_auth_enabled: bool,
}

impl HandshakeHashBuffer {
    /// An empty buffer, not keeping a client-authentication log.
    pub fn new() -> (r: HandshakeHashBuffer)
        ensures
            r.buffer@.len() == 0,
            !r.client_auth_enabled,
    {
        HandshakeHashBuffer { buffer: Vec::new(), client_auth_enabled: false }
    }

    /// Keeps the full log of the handshake for client authentication.
    pub fn set_client_auth_enabled(&mut self)
        ensures
            final(self).client_auth_enabled,
            final(self).buffer@ == old(self).buffer@,
    {
        self.client_auth_enabled = true;
    }

    /// Buffers a handshake message; other messages are ignored.
    pub fn add_message(&mut self, m: &Message)
        ensures
            final(self).client_auth_enabled == old(self).client_auth_enabled,
            final(self).buffer@ == match m.payload {
                MessagePayload::Handshake(hs) => old(self).buffer@ + hs@,
                MessagePayload::Other(_) => old(self).buffer@,
            },
    {
        match &m.payload {
            MessagePayload::Handshake(hs) => {
                self.buffer.extend_from_slice(hs.as_slice());
                proof {
                    assert(self.buffer@ =~= old(self).buffer@ + m.payload->Handshake_0@);
                }
            },
            MessagePayload::Other(_) => {},
        }
    }

    /// Buffers a byte slice.
    pub fn update_raw(&mut self, buf: &Vec<u8>)
        ensures
            final(self).client_auth_enabled == old(self).client_auth_enabled,
            final(self).buffer@ == old(self).buffer@ + buf@,
    {
        self.buffer.extend_from_slice(buf.as_slice());
        proof {
            assert(self.buffer@ =~= old(self).buffer@ + buf@);
        }
    }

    /// The digest the buffer would have if `extra` were hashed too.
    pub fn get_hash_given(&self, hash: &HashAlgorithm, extra: &Vec<u8>) -> (r: Vec<u8>)
        ensures
            r@ == digest_of(spec_hash_code(*hash), self.buffer@ + extra@),
            r@.len() == spec_hash_len(*hash),
    {
        let mut data = vstd::slice::slice_to_vec(self.buffer.as_slice());
        data.extend_from_slice(extra.as_slice());
        proof {
            assert(data@ =~= self.buffer@ + extra@);
        }
        ring_digest(hash, &data)
    }

    /// Switches to incremental hashing now that the algorithm is
    /// known, feeding it everything buffered so far.
    pub fn start_hash(self, alg: &HashAlgorithm) -> (r: HandshakeHash)
        ensures
            r.alg == *alg,
            r.transcript@ == self.buffer@,
            r.override_buffer is None,
            client_auth_view(r) == if self.client_auth_enabled {
                Some(self.buffer@)
            } else {
                None::<Seq<u8>>
            },
    {
        let client_auth: Option<Vec<u8>> = if self.client_auth_enabled {
            Some(vstd::slice::slice_to_vec(self.buffer.as_slice()))
        } else {
            None
        };
        let r = HandshakeHash {
            alg: *alg,
            transcript: self.buffer,
            client_auth,
            override_buffer: None,
        };
        r
    }
}

/// A running hash of the handshake payloads. The digest context is
/// modelled by the transcript bytes it has absorbed; the digest of the
/// context is the digest of those bytes.
#[derive(Debug)]
pub struct HandshakeHash {
    /// The digest algorithm in use.
    pub alg: HashAlgorithm,
    /// Every byte fed to the digest so far.
    pub transcript: Vec<u8>,
    /// The full message log, kept only for client authentication.
    pub client_auth: Option<Vec<u8>>,
    /// A fixed value returned instead of the digest, when set.
    pub override_buffer: Option<Vec<u8>>,
}

impl View for HandshakeHash {
    type V = Seq<u8>;

    /// The bytes absorbed so far.
    open spec fn view(&self) -> Seq<u8> {
        self.transcript@
    }
}

/// The `client_auth` field as a sequence view.
pub open spec fn client_auth_view(h: HandshakeHash) -> Option<Seq<u8>> {
    match h.client_auth {
        Some(b) => Some(b@),
        None => None,
    }
}

impl HandshakeHash {
    /// A fresh hash under the given algorithm.
    pub fn new(alg: &HashAlgorithm) -> (r: HandshakeHash)
        ensures
            r.alg == *alg,
            r.transcript@.len() == 0,
            r.client_auth is None,
            r.override_buffer is None,
    {
        HandshakeHash { alg: *alg, transcript: Vec::new(), client_auth: None, override_buffer: None }
    }

    /// A hash that always reports the given value instead of a digest.
    pub fn new_override(static_buffer: Vec<u8>, alg: &HashAlgorithm) -> (r: HandshakeHash)
        ensures
            r.alg == *alg,
            r.transcript@.len() == 0,
            r.client_auth is None,
            r.override_buffer matches Some(b) && b@ == static_buffer@,
    {
        HandshakeHash {
            alg: *alg,
            transcript: Vec::new(),
            client_auth: None,
            override_buffer: Some(static_buffer),
        }
    }

    /// Discards the client-authentication log.
    pub fn abandon_client_auth(&mut self)
        ensures
            final(self).client_auth is None,
            final(self).transcript@ == old(self).transcript@,
            final(self).alg == old(self).alg,
            final(self).override_buffer == old(self).override_buffer,
    {
        self.client_auth = None;
    }

    /// Hashes a handshake message; other messages are ignored.
    pub fn add_message(&mut self, m: &Message)
        ensures
            final(self).alg == old(self).alg,
            final(self).override_buffer == old(self).override_buffer,
            final(self).transcript@ == match m.payload {
                MessagePayload::Handshake(hs) => old(self).transcript@ + hs@,
                MessagePayload::Other(_) => old(self).transcript@,
            },
            final(self).client_auth is Some <==> old(self).client_auth is Some,
            client_auth_view(*final(self)) == match m.payload {
                MessagePayload::Handshake(hs) => match client_auth_view(*old(self)) {
                    Some(b) => Some(b + hs@),
                    None => None::<Seq<u8>>,
                },
                MessagePayload::Other(_) => client_auth_view(*old(self)),
            },
    {
        match &m.payload {
            MessagePayload::Handshake(hs) => {
                self.update_raw(hs);
            },
            MessagePayload::Other(_) => {},
        }
    }

    /// Hashes a byte slice, extending the client-authentication log if
    /// one is kept.
    pub fn update_raw(&mut self, buf: &Vec<u8>)
        ensures
            final(self).alg == old(self).alg,
            final(self).override_buffer == old(self).override_buffer,
            final(self).transcript@ == old(self).transcript@ + buf@,
            final(self).client_auth is Some <==> old(self).client_auth is Some,
            client_auth_view(*final(self)) == match client_auth_view(*old(self)) {
                Some(b) => Some(b + buf@),
                None => None::<Seq<u8>>,
            },
    {
        self.transcript.extend_from_slice(buf.as_slice());
        proof {
            assert(self.transcript@ =~= old(self).transcript@ + buf@);
        }
        match &mut self.client_auth {
            Some(log) => {
                log.extend_from_slice(buf.as_slice());
                proof {
                    assert(log@ =~= old(self).client_auth->0@ + buf@);
                }
            },
            None => {},
        }
    }

    /// The digest the transcript would have if `extra` were hashed
    /// too.
    pub fn get_hash_given(&self, extra: &Vec<u8>) -> (r: Vec<u8>)
        ensures
            r@ == digest_of(spec_hash_code(self.alg), self.transcript@ + extra@),
            r@.len() == spec_hash_len(self.alg),
    {
        let mut data = vstd::slice::slice_to_vec(self.transcript.as_slice());
        data.extend_from_slice(extra.as_slice());
        proof {
            assert(data@ =~= self.transcript@ + extra@);
        }
        ring_digest(&self.alg, &data)
    }

    /// The current digest of the transcript.
    pub fn get_current_hash(&self) -> (r: Vec<u8>)
        ensures
            r@ == digest_of(spec_hash_code(self.alg), self.transcript@),
            r@.len() == spec_hash_len(self.alg),
    {
        ring_digest(&self.alg, &self.transcript)
    }

    /// The current digest, or the fixed override value when one is
    /// set.
    pub fn get_current_hash_raw(&self) -> (r: Vec<u8>)
        ensures
            r@ == match self.override_buffer {
                Some(b) => b@,
                None => digest_of(spec_hash_code(self.alg), self.transcript@),
            },
    {
        match &self.override_buffer {
            Some(b) => vstd::slice::slice_to_vec(b.as_slice()),
            None => self.get_current_hash(),
        }
    }

    /// Closes the hash into a buffer holding the digest so far framed
    /// as a message-hash handshake message, for a hello retry.
    pub fn into_hrr_buffer(self) -> (r: HandshakeHashBuffer)
        ensures
            r.client_auth_enabled == (self.client_auth is Some),
            r.buffer@ == spec_handshake_hash_frame(
                digest_of(spec_hash_code(self.alg), self.transcript@),
            ),
    {
        let old_hash = self.get_current_hash();
        let frame = build_handshake_hash(&old_hash);
        HandshakeHashBuffer { buffer: frame, client_auth_enabled: self.client_auth.is_some() }
    }

    /// Restarts the hash with the digest so far at its front, framed
    /// as a message-hash handshake message.
    pub fn rollup_for_hrr(&mut self)
        ensures
            final(self).alg == old(self).alg,
            final(self).override_buffer == old(self).override_buffer,
            final(self).transcript@ == spec_handshake_hash_frame(
                digest_of(spec_hash_code(old(self).alg), old(self).transcript@),
            ),
            final(self).client_auth is Some <==> old(self).client_auth is Some,
    {
        let old_hash = self.get_current_hash();
        let frame = build_handshake_hash(&old_hash);
        self.transcript = Vec::new();
        self.update_raw(&frame);
        proof {
            assert(self.transcript@ =~= frame@);
        }
    }

    /// Takes the client-authentication log; works only once.
    pub fn take_handshake_buf(&mut self) -> (r: Option<Vec<u8>>)
        ensures
            final(self).client_auth is None,
            final(self).transcript@ == old(self).transcript@,
            final(self).alg == old(self).alg,
            final(self).override_buffer == old(self).override_buffer,
            match r {
                Some(b) => client_auth_view(*old(self)) == Some(b@),
                None => client_auth_view(*old(self)) is None,
            },
    {
        self.client_auth.take()
    }

    /// The digest algorithm in use.
    pub fn algorithm(&self) -> (r: HashAlgorithm)
        ensures
            r == self.alg,
    {
        self.alg
    }

    /// Appends the current raw hash value.
    pub fn encode(&self, bytes: &mut Vec<u8>)
        ensures
            final(bytes)@ == old(bytes)@ + match self.override_buffer {
                Some(b) => b@,
                None => digest_of(spec_hash_code(self.alg), self.transcript@),
            },
    {
        let mut hash = self.get_current_hash_raw();
        bytes.append(&mut hash);
    }

    /// Reads a fixed hash value: everything the reader has left, as an
    /// override under SHA-256.
    pub fn read(r: &mut Reader) -> (h: Option<HandshakeHash>)
        requires
            old(r).cursor <= old(r).bytes@.len(),
        ensures
            match h {
                Some(hh) => {
                    &&& hh.alg == HashAlgorithm::Sha256
                    &&& hh.override_buffer matches Some(b) && b@ == old(r).bytes@.skip(
                        old(r).cursor as int,
                    )
                },
                None => false,
            },
    {
        let body = r.rest();
        Some(HandshakeHash::new_override(body, &HashAlgorithm::Sha256))
    }
}

} // verus!
