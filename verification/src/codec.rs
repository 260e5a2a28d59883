//! Stateless frame codec: encodes a fixed-size block of samples into the
//! compressed-frame payload carried by a voice packet, and decodes such a
//! payload back into samples.
//!
//! A payload is the samples laid out little-endian, two bytes each; decoding
//! accepts exactly the byte strings of even length and inverts the encoding.

use vstd::prelude::*;

verus! {

/// Samples per channel in one frame: the pipeline produces one frame every
/// 10 ms at 48 kHz.
pub const FRAME_SAMPLES: usize = 480;

/// The sample reinterpreted as its two's-complement bit pattern.
pub open spec fn sample_bits(s: i16) -> u16 {
    if s >= 0 {
        s as u16
    } else {
        (s + 0x10000) as u16
    }
}

/// The bit pattern reinterpreted as a sample.
pub open spec fn bits_sample(u: u16) -> i16 {
    if u < 0x8000 {
        u as i16
    } else {
        (u - 0x10000) as i16
    }
}

/// The byte string a block of samples encodes to: two bytes per sample,
/// least-significant first.
pub open spec fn encoded_payload(samples: Seq<i16>) -> Seq<u8> {
    Seq::new(
        samples.len() * 2,
        |i: int|
            if i % 2 == 0 {
                (sample_bits(samples[i / 2]) % 256) as u8
            } else {
                (sample_bits(samples[i / 2]) / 256) as u8
            },
    )
}

/// The samples a byte string of even length decodes to.
pub open spec fn decoded_samples(bytes: Seq<u8>) -> Seq<i16> {
    Seq::new(
        bytes.len() / 2,
        |i: int| bits_sample((bytes[2 * i] + bytes[2 * i + 1] * 256) as u16),
    )
}

/// Stateless wrapper around the speech codec: one call encodes one block,
/// one call decodes one payload, nothing is carried between calls.
pub struct FrameCodec {}

impl FrameCodec {
    /// Encode a block of samples into a payload.
    pub fn encode(samples: &Vec<i16>) -> (r: Vec<u8>)
        requires
            samples@.len() * 2 <= usize::MAX,
        ensures
            r@ == encoded_payload(samples@),
    {
        let mut out: Vec<u8> = Vec::new();
        let mut i: usize = 0;
        while i < samples.len()
            invariant
                i <= samples@.len(),
                samples@.len() * 2 <= usize::MAX,
                out@.len() == 2 * i,
                out@ =~= encoded_payload(samples@.take(i as int)),
            decreases samples@.len() - i,
        {
            let s = samples[i];
            let u: u16 = if s >= 0 {
                s as u16
            } else {
                ((s as i32) + 0x10000) as u16
            };
            out.push((u % 256) as u8);
            out.push((u / 256) as u8);
            i = i + 1;
            proof {
                assert(out@ =~= encoded_payload(samples@.take(i as int)));
            }
        }
        proof {
            assert(samples@.take(samples@.len() as int) =~= samples@);
        }
        out
    }

    /// Decode a payload back into samples. Returns `None` exactly on byte
    /// strings of odd length, which no block encodes to.
    pub fn decode(bytes: &Vec<u8>) -> (r: Option<Vec<i16>>)
        ensures
            bytes@.len() % 2 == 0 <==> r is Some,
            r matches Some(v) ==> v@ == decoded_samples(bytes@),
    {
        if bytes.len() % 2 != 0 {
            return None;
        }
        let n = bytes.len() / 2;
        let mut out: Vec<i16> = Vec::new();
        let mut i: usize = 0;
        while i < n
            invariant
                i <= n,
                n == bytes@.len() / 2,
                n * 2 == bytes@.len(),
                bytes@.len() <= usize::MAX,
                bytes@.len() % 2 == 0,
                out@.len() == i,
                forall|k: int| 0 <= k < i ==> out@[k] == decoded_samples(bytes@)[k],
            decreases n - i,
        {
            let lo = bytes[2 * i];
            let hi = bytes[2 * i + 1];
            let u: u16 = lo as u16 + (hi as u16) * 256;
            let s: i16 = if u < 0x8000 {
                u as i16
            } else {
                ((u as i32) - 0x10000) as i16
            };
            out.push(s);
            i = i + 1;
        }
        proof {
            assert(out@ =~= decoded_samples(bytes@));
        }
        Some(out)
    }
}

/// Append every sample of `src` to `dst`, in order.
pub fn append_samples(dst: &mut Vec<i16>, src: &Vec<i16>)
    ensures
        final(dst)@ =~= old(dst)@ + src@,
{
    let ghost orig = dst@;
    let mut j: usize = 0;
    while j < src.len()
        invariant
            j <= src@.len(),
            dst@.len() == orig.len() + j,
            forall|t: int| 0 <= t < orig.len() ==> dst@[t] == orig[t],
            forall|t: int| 0 <= t < j ==> dst@[orig.len() + t] == src@[t],
        decreases src@.len() - j,
    {
        dst.push(src[j]);
        j = j + 1;
    }
    proof {
        assert(dst@ =~= orig + src@);
    }
}

/// Copy of the first `n` samples of `v`.
pub fn prefix_samples(v: &Vec<i16>, n: usize) -> (r: Vec<i16>)
    requires
        n <= v@.len(),
    ensures
        r@ =~= v@.take(n as int),
{
    let mut out: Vec<i16> = Vec::new();
    let mut t: usize = 0;
    while t < n
        invariant
            t <= n,
            n <= v@.len(),
            out@.len() == t,
            forall|q: int| 0 <= q < t ==> out@[q] == v@[q],
        decreases n - t,
    {
        out.push(v[t]);
        t = t + 1;
    }
    proof {
        assert(out@ =~= v@.take(n as int));
    }
    out
}

/// Copy of `v` without its first `n` samples.
pub fn suffix_samples(v: &Vec<i16>, n: usize) -> (r: Vec<i16>)
    requires
        n <= v@.len(),
    ensures
        r@ =~= v@.skip(n as int),
{
    let mut out: Vec<i16> = Vec::new();
    let mut t: usize = n;
    while t < v.len()
        invariant
            n <= t <= v@.len(),
            out@.len() == t - n,
            forall|q: int| 0 <= q < out@.len() ==> out@[q] == v@[n + q],
        decreases v@.len() - t,
    {
        out.push(v[t]);
        t = t + 1;
    }
    proof {
        assert(out@ =~= v@.skip(n as int));
    }
    out
}

/// The two bit-pattern views invert each other.
pub proof fn lemma_sample_bits_roundtrip(s: i16)
    ensures
        bits_sample(sample_bits(s)) == s,
{
}

/// Codec round trip: decoding an encoded block gives back exactly the block.
pub proof fn lemma_codec_roundtrip(samples: Seq<i16>)
    ensures
        decoded_samples(encoded_payload(samples)) =~= samples,
{
    let enc = encoded_payload(samples);
    assert forall|i: int| 0 <= i < samples.len() implies decoded_samples(enc)[i] == samples[i] by {
        let u = sample_bits(samples[i]);
        assert(enc[2 * i] == (u % 256) as u8);
        assert(enc[2 * i + 1] == (u / 256) as u8);
        assert((u % 256) + (u / 256) * 256 == u as int);
        lemma_sample_bits_roundtrip(samples[i]);
    }
}

/// An encoded payload always has even length, so [`FrameCodec::decode`]
/// never rejects what [`FrameCodec::encode`] produced.
pub proof fn lemma_encoded_payload_even(samples: Seq<i16>)
    ensures
        encoded_payload(samples).len() % 2 == 0,
{
}

} // verus!
