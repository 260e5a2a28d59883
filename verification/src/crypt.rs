//! The rotating session crypto wrapping the primary voice path.
//!
//! The OCB2-AES128 cipher itself, and the wire form of voice packets, come
//! from the `mumble_protocol` crate; this module owns the key material
//! handling and the generation bookkeeping that makes a rotation atomic: a
//! `CryptoChannel` holds exactly one live cipher state, a rotation replaces
//! it whole, and every decrypted packet is tagged with the generation that
//! was live at the moment it was read.

use vstd::prelude::*;
use mumble_protocol::voice::{VoicePacket, VoicePacketPayload};

verus! {

/// Holder for the voice-packet cipher state of the outside protocol crate.
/// Verus refuses a direct declaration of `CryptState` (its generic
/// parameters are bounded by an outside trait), so the value lives opaquely
/// inside this trusted holder instead.
#[verifier::external_body]
pub struct CipherState {
    inner: mumble_protocol::crypt::ClientCryptState,
}

/// Holder for one decoded voice packet of the outside crate, carried
/// opaquely from the decrypting wrapper to the converting wrapper.
#[verifier::external_body]
pub struct RawVoicePacket {
    inner: mumble_protocol::voice::VoicePacket<mumble_protocol::voice::Clientbound>,
}

/// Key material for one crypto session, as plain values: the shared AES key
/// and the two nonces the handshake established.
pub struct CryptoSessionMaterial {
    pub key: [u8; 16],
    pub encrypt_nonce: [u8; 16],
    pub decrypt_nonce: [u8; 16],
}

/// Why a datagram was discarded instead of decoded.
#[derive(Clone, Copy, Debug, PartialEq, Eq, Structural)]
pub enum DecryptFailure {
    /// Too short to carry a header.
    TooShort,
    /// Already decrypted once before.
    Repeat,
    /// Arrived far too late.
    Late,
    /// Authentication tag mismatch.
    BadMac,
    /// Decrypted fine but the voice payload would not parse.
    Malformed,
}

/// Audio payload of a decoded packet, by codec.
pub enum VoicePayload {
    CeltAlpha(Vec<Vec<u8>>),
    Speex(Vec<Vec<u8>>),
    CeltBeta(Vec<Vec<u8>>),
    Opus(Vec<u8>, bool),
    /// A payload kind this client does not know.
    Unknown,
}

/// A decoded incoming packet, as plain values.
pub enum ReceivedPacket {
    /// Echo of a liveness ping.
    Ping { timestamp: u64 },
    /// Voice data from a remote session.
    Audio {
        session_id: u32,
        seq_num: u64,
        target: u8,
        payload: VoicePayload,
        position: Option<Vec<u8>>,
    },
}

/// Relies on `CryptState::new_from`: builds the cipher state for the given
/// key and nonces.
#[verifier::external_body]
fn crypt_state_new(material: &CryptoSessionMaterial) -> CipherState {
    CipherState {
        inner: mumble_protocol::crypt::ClientCryptState::new_from(
            material.key,
            material.encrypt_nonce,
            material.decrypt_nonce,
        ),
    }
}

/// Relies on `CryptState::encrypt`, which writes a four-byte header and the
/// encrypted encoding of the packet; the voice-packet encoder is infallible.
#[verifier::external_body]
fn crypt_encrypt_voice(
    cs: &mut CipherState,
    target: u8,
    seq_num: u64,
    payload: &Vec<u8>,
    end: bool,
) -> (r: Vec<u8>)
    requires
        target < 32,
        payload@.len() < 0x2000,
    ensures
        r@.len() >= 4,
{
    let mut dst = bytes::BytesMut::new();
    let packet = mumble_protocol::voice::VoicePacket::Audio {
        _dst: std::marker::PhantomData,
        target,
        session_id: (),
        seq_num,
        payload: mumble_protocol::voice::VoicePacketPayload::Opus(
            bytes::Bytes::copy_from_slice(payload.as_slice()),
            end,
        ),
        position_info: None,
    };
    cs.inner.encrypt(packet, &mut dst);
    dst.to_vec()
}

/// Relies on `CryptState::encrypt` for a liveness ping carrying `timestamp`.
#[verifier::external_body]
fn crypt_encrypt_ping(cs: &mut CipherState, timestamp: u64) -> (r: Vec<u8>)
    ensures
        r@.len() >= 4,
{
    let mut dst = bytes::BytesMut::new();
    cs.inner.encrypt(mumble_protocol::voice::VoicePacket::Ping { timestamp }, &mut dst);
    dst.to_vec()
}

/// Relies on `CryptState::decrypt`: authenticates and decrypts one datagram
/// and parses it as a voice packet. Which packet (if any) comes out depends
/// on the cipher state, so nothing is promised of the result. A datagram of
/// exactly four bytes is kept out: it would leave an empty buffer after the
/// header, and the outside parse path is not trusted not to abort on an
/// authenticated empty payload. The encoder never produces one — every
/// genuine packet is the four-byte header plus at least one encoded byte.
#[verifier::external_body]
fn crypt_decrypt(cs: &mut CipherState, datagram: &Vec<u8>) -> Result<
    RawVoicePacket,
    DecryptFailure,
>
    requires
        datagram@.len() != 4,
{
    let mut buf = bytes::BytesMut::from(datagram.as_slice());
    match cs.inner.decrypt(&mut buf) {
        Ok(Ok(packet)) => Ok(RawVoicePacket { inner: packet }),
        Ok(Err(_)) => Err(DecryptFailure::Malformed),
        Err(mumble_protocol::crypt::DecryptError::Eof) => Err(DecryptFailure::TooShort),
        Err(mumble_protocol::crypt::DecryptError::Repeat) => Err(DecryptFailure::Repeat),
        Err(mumble_protocol::crypt::DecryptError::Late) => Err(DecryptFailure::Late),
        Err(mumble_protocol::crypt::DecryptError::Mac) => Err(DecryptFailure::BadMac),
    }
}

/// The audio payload of the outside crate, declared so the converting
/// wrappers can pass it between themselves.
#[verifier::external_type_specification]
#[verifier::external_body]
pub struct ExVoicePacketPayload(VoicePacketPayload);

/// Converts a payload of the outside crate into plain values, one variant
/// at a time.
#[verifier::external_body]
fn convert_payload(payload: VoicePacketPayload) -> VoicePayload {
    match payload {
        VoicePacketPayload::CeltAlpha(f) => VoicePayload::CeltAlpha(f.into_iter().map(|b| b.to_vec()).collect()),
        VoicePacketPayload::Speex(f) => VoicePayload::Speex(f.into_iter().map(|b| b.to_vec()).collect()),
        VoicePacketPayload::CeltBeta(f) => VoicePayload::CeltBeta(f.into_iter().map(|b| b.to_vec()).collect()),
        VoicePacketPayload::Opus(b, end) => VoicePayload::Opus(b.to_vec(), end),
        _ => VoicePayload::Unknown,
    }
}

/// Converts a decoded packet of the outside crate into plain values, one
/// variant at a time.
#[verifier::external_body]
fn convert_packet(packet: RawVoicePacket) -> ReceivedPacket {
    match packet.inner {
        VoicePacket::Ping { timestamp } => ReceivedPacket::Ping { timestamp },
        VoicePacket::Audio { target, session_id, seq_num, payload, position_info, .. } => {
            ReceivedPacket::Audio {
                session_id,
                seq_num,
                target,
                payload: convert_payload(payload),
                position: position_info.map(|b| b.to_vec()),
            }
        },
    }
}

/// The one live crypto session of the primary path: cipher state plus a
/// generation counter that rotation advances.
pub struct CryptoChannel {
    state: CipherState,
    generation: u64,
}

impl CryptoChannel {
    pub closed spec fn generation_spec(&self) -> u64 {
        self.generation
    }

    /// Open the first session of a connection at generation zero.
    pub fn new(material: &CryptoSessionMaterial) -> (r: CryptoChannel)
        ensures
            r.generation_spec() == 0,
    {
        CryptoChannel { state: crypt_state_new(material), generation: 0 }
    }

    /// Atomically replace the whole cipher state with a fresh one built
    /// from the new key material; the generation advances by one. No packet
    /// can be decrypted with the old session afterwards, because the old
    /// state is gone.
    pub fn rotate(&mut self, material: &CryptoSessionMaterial)
        ensures
            final(self).generation_spec() == crate::capture::seq_add(
                old(self).generation_spec(),
                1,
            ),
    {
        self.state = crypt_state_new(material);
        self.generation = self.generation.wrapping_add(1);
        proof {
            vstd::arithmetic::div_mod::lemma_small_mod(
                old(self).generation as nat,
                0x1_0000_0000_0000_0000,
            );
        }
    }

    /// Encrypt one outgoing voice frame for the primary path.
    pub fn encrypt_voice(&mut self, target: u8, seq_num: u64, payload: &Vec<u8>, end: bool) -> (r:
        Vec<u8>)
        requires
            target < 32,
            payload@.len() < 0x2000,
        ensures
            final(self).generation_spec() == old(self).generation_spec(),
            r@.len() >= 4,
    {
        crypt_encrypt_voice(&mut self.state, target, seq_num, payload, end)
    }

    /// Encrypt one outgoing liveness ping.
    pub fn encrypt_ping(&mut self, timestamp: u64) -> (r: Vec<u8>)
        ensures
            final(self).generation_spec() == old(self).generation_spec(),
            r@.len() >= 4,
    {
        crypt_encrypt_ping(&mut self.state, timestamp)
    }

    /// Decrypt and parse one incoming datagram. The returned tag is the
    /// generation that was live when the datagram was read: by construction
    /// no packet is ever processed under a stale session, because this is
    /// the only decryption path and it reads the one live state. A datagram
    /// of exactly four bytes — a header with nothing behind it, which no
    /// encoder produces — is rejected here as too short rather than handed
    /// to the cipher.
    pub fn decrypt(&mut self, datagram: &Vec<u8>) -> (r: (
        Result<ReceivedPacket, DecryptFailure>,
        u64,
    ))
        ensures
            final(self).generation_spec() == old(self).generation_spec(),
            r.1 == old(self).generation_spec(),
            datagram@.len() == 4 ==> r.0 == Err::<ReceivedPacket, DecryptFailure>(
                DecryptFailure::TooShort,
            ),
    {
        if datagram.len() == 4 {
            return (Err(DecryptFailure::TooShort), self.generation);
        }
        let outcome = match crypt_decrypt(&mut self.state, datagram) {
            Ok(packet) => Ok(convert_packet(packet)),
            Err(e) => Err(e),
        };
        (outcome, self.generation)
    }
}

/// The events the crypto channel sees, in the order the transport's one
/// critical section serialises them.
pub enum CryptoEvent {
    /// A new session replaced the old one.
    Rotate,
    /// One datagram was read and decoded.
    ReadFrame,
}

/// The generation live after a prefix of events, starting from `g0`.
pub open spec fn generation_after(g0: int, events: Seq<CryptoEvent>) -> int
    decreases events.len(),
{
    if events.len() == 0 {
        g0
    } else {
        generation_after(g0, events.drop_last()) + (if events.last() is Rotate {
            1int
        } else {
            0int
        })
    }
}

/// The tag a read at position `k` carries: the generation live at that
/// moment.
pub open spec fn read_tag(g0: int, events: Seq<CryptoEvent>, k: int) -> int {
    generation_after(g0, events.take(k))
}

/// Generations never move backwards.
pub proof fn lemma_generation_monotone(g0: int, events: Seq<CryptoEvent>, i: int, j: int)
    requires
        0 <= i <= j <= events.len(),
    ensures
        generation_after(g0, events.take(i)) <= generation_after(g0, events.take(j)),
    decreases j - i,
{
    if i < j {
        lemma_generation_monotone(g0, events, i, j - 1);
        assert(events.take(j).drop_last() =~= events.take(j - 1));
    }
}

/// Crypto rotation atomicity: a frame read after a rotation completed is
/// never processed with a generation older than the one that rotation
/// installed.
pub proof fn lemma_crypto_rotation_atomic(g0: int, events: Seq<CryptoEvent>, i: int, j: int)
    requires
        0 <= i < j <= events.len(),
        events[i] is Rotate,
        events[j - 1] is ReadFrame,
    ensures
        read_tag(g0, events, j - 1) > generation_after(g0, events.take(i)),
{
    assert(events.take(i + 1).drop_last() =~= events.take(i));
    assert(events.take(i + 1).last() == events[i]);
    lemma_generation_monotone(g0, events, i + 1, j - 1);
}

} // verus!
