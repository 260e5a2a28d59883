//! Sound effects: which file plays on which event, a cache of unpacked
//! audio data, and the preparation chain that turns decoded file samples
//! into device-ready samples at the pipeline's internal rate.
//!
//! Opening files is I/O and stays outside the library; the byte-level
//! unpacking of WAV and Ogg data is done by outside decoder crates behind
//! trusted wrappers, and everything after the decode — channel layout and
//! resampling — is verified here.

use vstd::prelude::*;
use crate::codec::{encoded_payload, FrameCodec};
use crate::config::SoundEffect;
use crate::resample::{resample, resampled_at, resampled_len};
use crate::SAMPLE_RATE;

verus! {

/// An event where a notification is shown and a sound effect is played.
#[derive(Clone, Copy, Debug, PartialEq, Eq, Structural)]
pub enum NotificationEvent {
    ServerConnect,
    ServerDisconnect,
    UserConnected,
    UserDisconnected,
    UserJoinedChannel,
    UserLeftChannel,
    Mute,
    Unmute,
    Deafen,
    Undeafen,
}

/// Executable string equality over the character views.
fn str_eq(a: &str, b: &str) -> (r: bool)
    ensures
        r == (a@ == b@),
{
    let sa = String::from_str(a);
    let sb = String::from_str(b);
    sa == sb
}

/// The event a configuration key names, if any.
pub open spec fn event_for_key(s: Seq<char>) -> Option<NotificationEvent> {
    if s == "server_connect"@ {
        Some(NotificationEvent::ServerConnect)
    } else if s == "server_disconnect"@ {
        Some(NotificationEvent::ServerDisconnect)
    } else if s == "user_connected"@ {
        Some(NotificationEvent::UserConnected)
    } else if s == "user_disconnected"@ {
        Some(NotificationEvent::UserDisconnected)
    } else if s == "user_joined_channel"@ {
        Some(NotificationEvent::UserJoinedChannel)
    } else if s == "user_left_channel"@ {
        Some(NotificationEvent::UserLeftChannel)
    } else if s == "mute"@ {
        Some(NotificationEvent::Mute)
    } else if s == "unmute"@ {
        Some(NotificationEvent::Unmute)
    } else if s == "deafen"@ {
        Some(NotificationEvent::Deafen)
    } else if s == "undeafen"@ {
        Some(NotificationEvent::Undeafen)
    } else {
        None
    }
}

impl NotificationEvent {
    /// The event a configuration key names, if any.
    pub fn try_from(s: &str) -> (r: Result<NotificationEvent, ()>)
        ensures
            r == (match event_for_key(s@) {
                Some(e) => Ok::<NotificationEvent, ()>(e),
                None => Err::<NotificationEvent, ()>(()),
            }),
            s@ == "server_connect"@ <==> r == Ok::<_, ()>(NotificationEvent::ServerConnect),
            s@ == "server_disconnect"@ <==> r == Ok::<_, ()>(NotificationEvent::ServerDisconnect),
            s@ == "user_connected"@ <==> r == Ok::<_, ()>(NotificationEvent::UserConnected),
            s@ == "user_disconnected"@ <==> r == Ok::<_, ()>(NotificationEvent::UserDisconnected),
            s@ == "user_joined_channel"@ <==> r == Ok::<_, ()>(NotificationEvent::UserJoinedChannel),
            s@ == "user_left_channel"@ <==> r == Ok::<_, ()>(NotificationEvent::UserLeftChannel),
            s@ == "mute"@ <==> r == Ok::<_, ()>(NotificationEvent::Mute),
            s@ == "unmute"@ <==> r == Ok::<_, ()>(NotificationEvent::Unmute),
            s@ == "deafen"@ <==> r == Ok::<_, ()>(NotificationEvent::Deafen),
            s@ == "undeafen"@ <==> r == Ok::<_, ()>(NotificationEvent::Undeafen),
    {
        proof {
            reveal_strlit("server_connect");
            reveal_strlit("server_disconnect");
            reveal_strlit("user_connected");
            reveal_strlit("user_disconnected");
            reveal_strlit("user_joined_channel");
            reveal_strlit("user_left_channel");
            reveal_strlit("mute");
            reveal_strlit("unmute");
            reveal_strlit("deafen");
            reveal_strlit("undeafen");
            assert("server_connect"@.len() == 14);
            assert("server_disconnect"@.len() == 17);
            assert("user_connected"@.len() == 14);
            assert("user_disconnected"@.len() == 17);
            assert("user_joined_channel"@.len() == 19);
            assert("user_left_channel"@.len() == 17);
            assert("mute"@.len() == 4);
            assert("unmute"@.len() == 6);
            assert("deafen"@.len() == 6);
            assert("undeafen"@.len() == 8);
            assert("server_connect"@[0] == 's' && "user_connected"@[0] == 'u');
            assert("server_disconnect"@[0] == 's' && "user_disconnected"@[0] == 'u'
                && "user_left_channel"@[0] == 'u');
            assert("user_disconnected"@[5] == 'd' && "user_left_channel"@[5] == 'l');
            assert("unmute"@[0] == 'u' && "deafen"@[0] == 'd');
        }
        if str_eq(s, "server_connect") {
            Ok(NotificationEvent::ServerConnect)
        } else if str_eq(s, "server_disconnect") {
            Ok(NotificationEvent::ServerDisconnect)
        } else if str_eq(s, "user_connected") {
            Ok(NotificationEvent::UserConnected)
        } else if str_eq(s, "user_disconnected") {
            Ok(NotificationEvent::UserDisconnected)
        } else if str_eq(s, "user_joined_channel") {
            Ok(NotificationEvent::UserJoinedChannel)
        } else if str_eq(s, "user_left_channel") {
            Ok(NotificationEvent::UserLeftChannel)
        } else if str_eq(s, "mute") {
            Ok(NotificationEvent::Mute)
        } else if str_eq(s, "unmute") {
            Ok(NotificationEvent::Unmute)
        } else if str_eq(s, "deafen") {
            Ok(NotificationEvent::Deafen)
        } else if str_eq(s, "undeafen") {
            Ok(NotificationEvent::Undeafen)
        } else {
            Err(())
        }
    }
}

/// The kinds of audio files that can be unpacked.
#[derive(Clone, Copy, Debug, PartialEq, Eq, Structural)]
pub enum AudioFileKind {
    Ogg,
    Wav,
}

impl AudioFileKind {
    /// The kind a file extension names, if any.
    pub fn try_from(s: &str) -> (r: Result<AudioFileKind, ()>)
        ensures
            s@ == "ogg"@ <==> r == Ok::<_, ()>(AudioFileKind::Ogg),
            s@ == "wav"@ <==> r == Ok::<_, ()>(AudioFileKind::Wav),
    {
        proof {
            reveal_strlit("ogg");
            reveal_strlit("wav");
            assert("ogg"@.len() == 3 && "wav"@.len() == 3);
            assert("ogg"@[0] == 'o' && "wav"@[0] == 'w');
        }
        if str_eq(s, "ogg") {
            Ok(AudioFileKind::Ogg)
        } else if str_eq(s, "wav") {
            Ok(AudioFileKind::Wav)
        } else {
            Err(())
        }
    }
}

/// Four little-endian bytes of a 32-bit value.
pub open spec fn le4(x: int) -> Seq<u8> {
    seq![
        (x % 256) as u8,
        ((x / 256) % 256) as u8,
        ((x / 65536) % 256) as u8,
        ((x / 16777216) % 256) as u8,
    ]
}

/// Two little-endian bytes of a 16-bit value.
pub open spec fn le2(x: int) -> Seq<u8> {
    seq![(x % 256) as u8, ((x / 256) % 256) as u8]
}

/// The bytes of a canonical RIFF/WAVE file holding 16-bit integer samples:
/// the RIFF header, a 16-byte PCM format chunk, and one data chunk with the
/// samples little-endian.
pub open spec fn wav_file_bytes(channels: u16, rate: u32, samples: Seq<i16>) -> Seq<u8> {
    let data = encoded_payload(samples);
    seq![82u8, 73u8, 70u8, 70u8]  // "RIFF"
     + le4(36 + data.len() as int) + seq![87u8, 65u8, 86u8, 69u8]  // "WAVE"
     + seq![102u8, 109u8, 116u8, 32u8]  // "fmt "
     + le4(16) + le2(1)  // PCM
     + le2(channels as int) + le4(rate as int) + le4(rate as int * channels as int * 2) + le2(
        channels as int * 2,
    ) + le2(16)  // bits per sample
     + seq![100u8, 97u8, 116u8, 97u8]  // "data"
     + le4(data.len() as int) + data
}

/// Append the four little-endian bytes of `x`.
fn push_le4(out: &mut Vec<u8>, x: u32)
    ensures
        final(out)@ =~= old(out)@ + le4(x as int),
{
    out.push((x % 256) as u8);
    out.push(((x / 256) % 256) as u8);
    out.push(((x / 65536) % 256) as u8);
    out.push(((x / 16777216) % 256) as u8);
    proof {
        assert(final(out)@ =~= old(out)@ + le4(x as int));
    }
}

/// Append the two little-endian bytes of `x`.
fn push_le2(out: &mut Vec<u8>, x: u16)
    ensures
        final(out)@ =~= old(out)@ + le2(x as int),
{
    out.push((x % 256) as u8);
    out.push(((x / 256) % 256) as u8);
    proof {
        assert(final(out)@ =~= old(out)@ + le2(x as int));
    }
}

/// Serialise samples as a canonical RIFF/WAVE file.
#[verifier::rlimit(100)]
pub fn wav_bytes(channels: u16, rate: u32, samples: &Vec<i16>) -> (r: Vec<u8>)
    requires
        1 <= channels <= 2,
        rate >= 1,
        rate * channels * 2 <= u32::MAX,
        samples@.len() * 2 + 36 <= u32::MAX,
    ensures
        r@ =~= wav_file_bytes(channels, rate, samples@),
{
    let data = FrameCodec::encode(samples);
    let mut out: Vec<u8> = Vec::new();
    out.push(82);
    out.push(73);
    out.push(70);
    out.push(70);
    let ghost c1 = seq![82u8, 73u8, 70u8, 70u8];
    proof {
        assert(out@ =~= c1);
    }
    push_le4(&mut out, 36 + data.len() as u32);
    let ghost c2 = c1 + le4(36 + data@.len() as int);
    proof {
        assert(out@ =~= c2);
    }
    out.push(87);
    out.push(65);
    out.push(86);
    out.push(69);
    out.push(102);
    out.push(109);
    out.push(116);
    out.push(32);
    let ghost c3 = c2 + seq![87u8, 65u8, 86u8, 69u8] + seq![102u8, 109u8, 116u8, 32u8];
    proof {
        assert(out@ =~= c3);
    }
    push_le4(&mut out, 16);
    push_le2(&mut out, 1);
    let ghost c4 = c3 + le4(16) + le2(1);
    proof {
        assert(out@ =~= c4);
    }
    push_le2(&mut out, channels);
    push_le4(&mut out, rate);
    let ghost c5 = c4 + le2(channels as int) + le4(rate as int);
    proof {
        assert(out@ =~= c5);
    }
    push_le4(&mut out, rate * (channels as u32) * 2);
    push_le2(&mut out, channels * 2);
    push_le2(&mut out, 16);
    let ghost c6 = c5 + le4(rate as int * channels as int * 2) + le2(channels as int * 2) + le2(16);
    proof {
        assert(rate * (channels as u32) * 2 == rate as int * channels as int * 2);
        assert(out@ =~= c6);
    }
    out.push(100);
    out.push(97);
    out.push(116);
    out.push(97);
    push_le4(&mut out, data.len() as u32);
    let ghost c7 = c6 + seq![100u8, 97u8, 116u8, 97u8] + le4(data@.len() as int);
    proof {
        assert(out@ =~= c7);
    }
    let mut t: usize = 0;
    let ghost head = out@;
    while t < data.len()
        invariant
            t <= data@.len(),
            out@.len() == head.len() + t,
            forall|q: int| 0 <= q < head.len() ==> out@[q] == head[q],
            forall|q: int| 0 <= q < t ==> out@[head.len() + q] == data@[q],
        decreases data@.len() - t,
    {
        out.push(data[t]);
        t = t + 1;
    }
    proof {
        assert(out@ =~= c7 + data@);
        assert(c7 + data@ =~= wav_file_bytes(channels, rate, samples@));
    }
    out
}

/// The built-in fallback effect: a short square-wave beep, mono at the
/// internal rate.
pub open spec fn default_effect_samples() -> Seq<i16> {
    Seq::new(480, |i: int| if (i / 60) % 2 == 0 {
        8000i16
    } else {
        (-8000) as i16
    })
}

/// Executable counterpart of [`default_effect_samples`].
pub fn build_default_effect() -> (r: Vec<i16>)
    ensures
        r@ =~= default_effect_samples(),
{
    let mut out: Vec<i16> = Vec::new();
    let mut i: usize = 0;
    while i < 480
        invariant
            i <= 480,
            out@.len() == i,
            forall|q: int| 0 <= q < i ==> out@[q] == default_effect_samples()[q],
        decreases 480 - i,
    {
        if (i / 60) % 2 == 0 {
            out.push(8000);
        } else {
            out.push(-8000);
        }
        i = i + 1;
    }
    proof {
        assert(out@ =~= default_effect_samples());
    }
    out
}

/// The default sound effect, as the bytes of a WAV file.
pub fn get_default_sfx() -> (r: Vec<u8>)
    ensures
        r@ =~= wav_file_bytes(1, SAMPLE_RATE, default_effect_samples()),
{
    let samples = build_default_effect();
    wav_bytes(1, SAMPLE_RATE, &samples)
}

/// What `hound` decodes a WAV byte stream to: the interleaved integer
/// samples, the channel count, and the sample rate — a function of the
/// bytes alone.
pub uninterp spec fn wav_decoded(bytes: Seq<u8>) -> Option<(Seq<i16>, u32, u32)>;

/// Relies on `hound::WavReader`: parses a RIFF/WAVE byte stream and yields
/// its 16-bit samples with the declared channel count and sample rate;
/// rejects anything else. The result depends on the bytes alone.
#[verifier::external_body]
fn unpack_wav(bytes: &Vec<u8>) -> (r: Option<(Vec<i16>, u32, u32)>)
    ensures
        (match (r, wav_decoded(bytes@)) {
            (Some(a), Some(b)) => a.0@ == b.0 && a.1 == b.1 && a.2 == b.2,
            (None, None) => true,
            _ => false,
        }),
{
    let reader = hound::WavReader::new(bytes.as_slice()).ok()?;
    let spec = reader.spec();
    let samples: Result<Vec<i16>, _> = reader.into_samples::<i16>().collect();
    Some((samples.ok()?, spec.channels as u32, spec.sample_rate))
}

/// What `lewton` decodes an Ogg Vorbis byte stream to — a function of the
/// bytes alone.
pub uninterp spec fn ogg_decoded(bytes: Seq<u8>) -> Option<(Seq<i16>, u32, u32)>;

/// Relies on `lewton::inside_ogg::OggStreamReader`: decodes an Ogg Vorbis
/// byte stream into interleaved 16-bit samples with the stream's channel
/// count and sample rate. The result depends on the bytes alone. The
/// decoder's own panic paths could not be ruled out for every malformed
/// input, so a hostile sound-effect file may abort the process; the bytes
/// come from files the person at the keyboard configured, never from the
/// network.
#[verifier::external_body]
fn unpack_ogg(bytes: &Vec<u8>) -> (r: Option<(Vec<i16>, u32, u32)>)
    ensures
        (match (r, ogg_decoded(bytes@)) {
            (Some(a), Some(b)) => a.0@ == b.0 && a.1 == b.1 && a.2 == b.2,
            (None, None) => true,
            _ => false,
        }),
{
    let cursor = std::io::Cursor::new(bytes.as_slice());
    let mut reader = lewton::inside_ogg::OggStreamReader::new(cursor).ok()?;
    let channels = reader.ident_hdr.audio_channels as u32;
    let rate = reader.ident_hdr.audio_sample_rate;
    let mut samples: Vec<i16> = Vec::new();
    while let Ok(Some(mut frame)) = reader.read_dec_packet_itl() {
        samples.append(&mut frame);
    }
    Some((samples, channels, rate))
}

/// Unpack audio data of a known kind into interleaved samples with their
/// channel count and sample rate.
pub fn unpack_audio(bytes: &Vec<u8>, kind: AudioFileKind) -> (r: Option<(Vec<i16>, u32, u32)>)
    ensures
        (match (r, if kind == AudioFileKind::Wav {
            wav_decoded(bytes@)
        } else {
            ogg_decoded(bytes@)
        }) {
            (Some(a), Some(b)) => a.0@ == b.0 && a.1 == b.1 && a.2 == b.2,
            (None, None) => true,
            _ => false,
        }),
{
    match kind {
        AudioFileKind::Wav => unpack_wav(bytes),
        AudioFileKind::Ogg => unpack_ogg(bytes),
    }
}

/// The left channel of an interleaved stereo signal.
pub open spec fn left_of(s: Seq<i16>) -> Seq<i16> {
    Seq::new(s.len() / 2, |i: int| s[2 * i])
}

/// The right channel of an interleaved stereo signal.
pub open spec fn right_of(s: Seq<i16>) -> Seq<i16> {
    Seq::new(s.len() / 2, |i: int| s[2 * i + 1])
}

/// Two equally long channels interleaved left-first.
pub open spec fn interleaved(l: Seq<i16>, r: Seq<i16>) -> Seq<i16> {
    Seq::new(l.len() * 2, |i: int| if i % 2 == 0 {
        l[i / 2]
    } else {
        r[i / 2]
    })
}

/// Split an interleaved stereo signal into its channels.
fn deinterleave(s: &Vec<i16>) -> (r: (Vec<i16>, Vec<i16>))
    ensures
        r.0@ =~= left_of(s@),
        r.1@ =~= right_of(s@),
{
    let n = s.len() / 2;
    let mut l: Vec<i16> = Vec::new();
    let mut rr: Vec<i16> = Vec::new();
    let mut i: usize = 0;
    proof {
        assert(2 * (n as int) <= s@.len());
    }
    while i < n
        invariant
            i <= n,
            n == s@.len() / 2,
            2 * (n as int) <= s@.len(),
            s@.len() <= usize::MAX,
            l@.len() == i,
            rr@.len() == i,
            forall|q: int| 0 <= q < i ==> l@[q] == s@[2 * q],
            forall|q: int| 0 <= q < i ==> rr@[q] == s@[2 * q + 1],
        decreases n - i,
    {
        l.push(s[2 * i]);
        rr.push(s[2 * i + 1]);
        i = i + 1;
    }
    proof {
        assert(l@ =~= left_of(s@));
        assert(rr@ =~= right_of(s@));
    }
    (l, rr)
}

/// Interleave two equally long channels.
fn interleave(l: &Vec<i16>, r: &Vec<i16>) -> (out: Vec<i16>)
    requires
        l@.len() == r@.len(),
        l@.len() * 2 <= usize::MAX,
    ensures
        out@ =~= interleaved(l@, r@),
{
    let mut out: Vec<i16> = Vec::new();
    let mut i: usize = 0;
    while i < l.len()
        invariant
            i <= l@.len(),
            l@.len() == r@.len(),
            l@.len() * 2 <= usize::MAX,
            out@.len() == 2 * i,
            forall|q: int| 0 <= q < i ==> out@[2 * q] == l@[q] && out@[2 * q + 1] == r@[q],
        decreases l@.len() - i,
    {
        out.push(l[i]);
        out.push(r[i]);
        i = i + 1;
    }
    proof {
        assert(out@ =~= interleaved(l@, r@));
    }
    out
}

/// Turn decoded file samples into device-ready samples: a mono source is
/// paired with itself, a stereo source is split; each channel is resampled
/// to the internal rate; and the result is the left channel alone for a
/// mono device, or the two channels re-interleaved for a stereo device.
/// Sources with any other channel count are rejected.
pub fn prepare_samples(samples: &Vec<i16>, channels: u32, rate: u32, out_channels: usize) -> (r:
    Result<Vec<i16>, ()>)
    requires
        rate >= 1,
        out_channels == 1 || out_channels == 2,
        samples@.len() * SAMPLE_RATE <= u64::MAX,
        resampled_len(samples@.len() as int, rate as int, SAMPLE_RATE as int) * 2 <= usize::MAX,
    ensures
        r is Ok <==> channels == 1 || channels == 2,
        r matches Ok(out) ==> ({
            let l = if channels == 1 {
                samples@
            } else {
                left_of(samples@)
            };
            let rt = if channels == 1 {
                samples@
            } else {
                right_of(samples@)
            };
            let n = resampled_len(l.len() as int, rate as int, SAMPLE_RATE as int);
            &&& out_channels == 1 ==> out@.len() == n && (forall|k: int|
                0 <= k < n ==> out@[k] == resampled_at(l, rate as int, SAMPLE_RATE as int, k))
            &&& out_channels == 2 ==> out@.len() == 2 * n && (forall|k: int|
                0 <= k < n ==> out@[2 * k] == resampled_at(l, rate as int, SAMPLE_RATE as int, k)
                    && out@[2 * k + 1] == resampled_at(rt, rate as int, SAMPLE_RATE as int, k))
        }),
{
    let (l, rt) = if channels == 1 {
        let mut lc: Vec<i16> = Vec::new();
        let mut rc: Vec<i16> = Vec::new();
        crate::codec::append_samples(&mut lc, samples);
        crate::codec::append_samples(&mut rc, samples);
        proof {
            assert(lc@ =~= samples@);
            assert(rc@ =~= samples@);
        }
        (lc, rc)
    } else if channels == 2 {
        deinterleave(samples)
    } else {
        return Err(());
    };
    proof {
        assert(l@.len() <= samples@.len());
        assert(l@.len() * SAMPLE_RATE <= u64::MAX) by (nonlinear_arith)
            requires
                l@.len() <= samples@.len(),
                samples@.len() * SAMPLE_RATE <= u64::MAX,
        {
        }
        assert(resampled_len(l@.len() as int, rate as int, SAMPLE_RATE as int) <= resampled_len(
            samples@.len() as int,
            rate as int,
            SAMPLE_RATE as int,
        )) by (nonlinear_arith)
            requires
                l@.len() <= samples@.len(),
                rate >= 1,
        {
        }
    }
    let lr = resample(&l, rate, SAMPLE_RATE);
    if out_channels == 1 {
        Ok(lr)
    } else {
        proof {
            assert(rt@.len() == l@.len());
        }
        let rr = resample(&rt, rate, SAMPLE_RATE);
        let out = interleave(&lr, &rr);
        Ok(out)
    }
}

/// Whether some configured event names the file at `path`.
pub open spec fn configured_path(events: Seq<(NotificationEvent, String)>, path: Seq<char>) -> bool {
    exists|i: int| 0 <= i < events.len() && ((#[trigger] events[i]).1)@ == path
}

/// The file configured for `ev`, as its character view, if any
/// (meaningful under unique event keys).
pub open spec fn event_file(events: Seq<(NotificationEvent, String)>, ev: NotificationEvent) -> Option<
    Seq<char>,
> {
    if exists|i: int| 0 <= i < events.len() && (#[trigger] events[i]).0 == ev {
        let i = choose|i: int| 0 <= i < events.len() && (#[trigger] events[i]).0 == ev;
        Some((events[i].1)@)
    } else {
        None
    }
}

/// The file a configuration list leaves for `ev`: the last list entry whose
/// key parses to `ev`, or `dflt` when none does.
pub open spec fn configured_file(
    list: Seq<SoundEffect>,
    ev: NotificationEvent,
    dflt: Option<Seq<char>>,
) -> Option<Seq<char>>
    decreases list.len(),
{
    if list.len() == 0 {
        dflt
    } else if event_for_key(list.last().event@) == Some(ev) {
        Some(list.last().file@)
    } else {
        configured_file(list.drop_last(), ev, dflt)
    }
}

/// Whether an event has a configured file.
pub open spec fn has_event(events: Seq<(NotificationEvent, String)>, e: NotificationEvent) -> bool {
    exists|i: int| 0 <= i < events.len() && events[i].0 == e
}

/// Whether a path has been loaded (successfully or not).
pub open spec fn has_file(files: Seq<(String, Option<Vec<i16>>)>, path: Seq<char>) -> bool {
    exists|i: int| 0 <= i < files.len() && files[i].0@ == path
}

/// The samples that play when `event` fires on cache `c`: the loaded data
/// of the event's configured file, or the default effect when no file is
/// configured, it was never loaded, or loading failed.
pub open spec fn samples_for(c: &SoundEffects, event: NotificationEvent, s: Seq<i16>) -> bool {
    let fallback = !exists|i: int, j: int|
        0 <= i < c.events_view().len() && 0 <= j < c.files_view().len() && (
        #[trigger] c.events_view()[i]).0 == event && ((#[trigger] c.files_view()[j]).0)@
            == (c.events_view()[i].1)@ && c.files_view()[j].1 is Some;
    &&& fallback ==> s == c.default_view()
    &&& !fallback ==> exists|i: int, j: int|
        0 <= i < c.events_view().len() && 0 <= j < c.files_view().len() && (
        #[trigger] c.events_view()[i]).0 == event && ((#[trigger] c.files_view()[j]).0)@
            == (c.events_view()[i].1)@ && (c.files_view()[j].1 matches Some(v) && s == v@)
}

/// Stores unpacked audio data per event, with basic caching: configure the
/// events, load what is not yet loaded, then ask for samples when an event
/// fires. A missing or unreadable file falls back to the default effect.
pub struct SoundEffects {
    default_sound_effect: Vec<i16>,
    opened_files: Vec<(String, Option<Vec<i16>>)>,
    events: Vec<(NotificationEvent, String)>,
    num_channels: usize,
}

impl SoundEffects {
    pub closed spec fn default_view(&self) -> Seq<i16> {
        self.default_sound_effect@
    }

    pub closed spec fn files_view(&self) -> Seq<(String, Option<Vec<i16>>)> {
        self.opened_files@
    }

    pub closed spec fn events_view(&self) -> Seq<(NotificationEvent, String)> {
        self.events@
    }

    pub closed spec fn num_channels_spec(&self) -> usize {
        self.num_channels
    }

    pub open spec fn wf(&self) -> bool {
        &&& forall|i: int, j: int|
            0 <= i < j < self.events_view().len() ==> self.events_view()[i].0
                != self.events_view()[j].0
        &&& forall|i: int, j: int|
            0 <= i < j < self.files_view().len() ==> self.files_view()[i].0@
                != self.files_view()[j].0@
    }

    /// A cache holding only the built-in default effect.
    pub fn new(num_channels: usize) -> (r: SoundEffects)
        ensures
            r.wf(),
            r.default_view() =~= default_effect_samples(),
            r.files_view().len() == 0,
            r.events_view().len() == 0,
            r.num_channels_spec() == num_channels,
    {
        SoundEffects {
            default_sound_effect: build_default_effect(),
            opened_files: Vec::new(),
            events: Vec::new(),
            num_channels,
        }
    }

    fn find_file(&self, path: &str) -> (r: Option<usize>)
        ensures
            match r {
                Some(i) => i < self.files_view().len() && self.files_view()[i as int].0@ == path@,
                None => !has_file(self.files_view(), path@),
            },
    {
        let mut i: usize = 0;
        while i < self.opened_files.len()
            invariant
                i <= self.opened_files@.len(),
                forall|j: int| 0 <= j < i ==> self.opened_files@[j].0@ != path@,
            decreases self.opened_files@.len() - i,
        {
            if str_eq(self.opened_files[i].0.as_str(), path) {
                return Some(i);
            }
            i = i + 1;
        }
        None
    }

    fn find_event(&self, e: NotificationEvent) -> (r: Option<usize>)
        ensures
            match r {
                Some(i) => i < self.events_view().len() && self.events_view()[i as int].0 == e,
                None => !has_event(self.events_view(), e),
            },
    {
        let mut i: usize = 0;
        while i < self.events.len()
            invariant
                i <= self.events@.len(),
                forall|j: int| 0 <= j < i ==> self.events@[j].0 != e,
            decreases self.events@.len() - i,
        {
            if self.events[i].0 == e {
                return Some(i);
            }
            i = i + 1;
        }
        None
    }

    /// Store what loading `path` produced: the unpacked samples, or `None`
    /// for a file that could not be read or unpacked (it will fall back to
    /// the default effect). Loading a path again replaces the entry.
    pub fn load_file(&mut self, path: String, samples: Option<Vec<i16>>)
        requires
            old(self).wf(),
        ensures
            final(self).wf(),
            has_file(final(self).files_view(), path@),
            final(self).events_view() == old(self).events_view(),
            final(self).default_view() == old(self).default_view(),
            final(self).num_channels_spec() == old(self).num_channels_spec(),
            forall|i: int|
                0 <= i < final(self).files_view().len() && (#[trigger] final(self).files_view()[i]).0@ == path@ ==> final(self).files_view()[i].1 == samples,
            forall|i: int|
                0 <= i < old(self).files_view().len() && old(self).files_view()[i].0@ != path@
                    ==> (#[trigger] final(self).files_view()[i]) == old(self).files_view()[i],
    {
        match self.find_file(path.as_str()) {
            Some(i) => {
                self.opened_files.remove(i);
                self.opened_files.insert(i, (path, samples));
                proof {
                    assert forall|k: int|
                        0 <= k < self.opened_files@.len() && k != i implies (#[trigger] self
                            .opened_files@[k]) == old(self).files_view()[k] by {
                        assert(self.opened_files@ == old(self).files_view().remove(
                            i as int,
                        ).insert(i as int, self.opened_files@[i as int]));
                    }
                    assert forall|a: int, b: int|
                        0 <= a < b < self.opened_files@.len() implies self.opened_files@[a].0@
                        != self.opened_files@[b].0@ by {
                        assert(old(self).files_view()[a].0@ != old(self).files_view()[b].0@);
                    }
                    assert((self.files_view()[i as int]).0@ == path@);
                }
            },
            None => {
                self.opened_files.push((path, samples));
                proof {
                    assert(self.opened_files@.drop_last() =~= old(self).files_view());
                    let last = self.opened_files@.len() - 1;
                    assert((self.files_view()[last]).0@ == path@);
                    assert forall|a: int, b: int|
                        0 <= a < b < self.opened_files@.len() implies self.opened_files@[a].0@
                        != self.opened_files@[b].0@ by {
                        if b < last {
                            assert(old(self).files_view()[a].0@ != old(self).files_view()[b].0@);
                        } else {
                            assert(self.opened_files@[a] == old(self).files_view()[a]);
                            assert(!has_file(old(self).files_view(), path@));
                        }
                    }
                }
            },
        }
        proof {
            assert(self.events@ == old(self).events@);
            assert forall|a: int, b: int|
                0 <= a < b < self.events@.len() implies self.events@[a].0 != self.events@[b].0 by {
                assert(old(self).events_view()[a].0 != old(self).events_view()[b].0);
            }
        }
    }

    /// Configure which file plays on an event: the parsed event now maps to
    /// the given file, every other event keeps its file, and a key that
    /// names no known event leaves everything unchanged.
    pub fn set_sound_effect(&mut self, sound_effect: &SoundEffect)
        requires
            old(self).wf(),
        ensures
            final(self).wf(),
            final(self).files_view() == old(self).files_view(),
            final(self).default_view() == old(self).default_view(),
            final(self).num_channels_spec() == old(self).num_channels_spec(),
            (match event_for_key(sound_effect.event@) {
                None => final(self).events_view() == old(self).events_view(),
                Some(ev) => {
                    &&& forall|k: int|
                        0 <= k < old(self).events_view().len() && (#[trigger] old(self).events_view()[k]).0
                            != ev ==> final(self).events_view()[k] == old(self).events_view()[k]
                    &&& exists|k: int|
                        0 <= k < final(self).events_view().len() && (#[trigger] final(self).events_view()[k]).0
                            == ev && ((final(self).events_view()[k].1)@ == sound_effect.file@)
                    &&& final(self).events_view().len() as int == (if has_event(old(self).events_view(), ev) {
                        old(self).events_view().len() as int
                    } else {
                        old(self).events_view().len() as int + 1
                    })
                    &&& event_file(final(self).events_view(), ev) == Some(sound_effect.file@)
                    &&& forall|e: NotificationEvent|
                        e != ev ==> event_file(final(self).events_view(), e) == event_file(
                            old(self).events_view(),
                            e,
                        )
                },
            }),
    {
        let event = match NotificationEvent::try_from(sound_effect.event.as_str()) {
            Ok(e) => e,
            Err(_) => {
                return ;
            },
        };
        let path = sound_effect.file.clone();
        match self.find_event(event) {
            Some(i) => {
                proof {
                    assert(path@ == sound_effect.file@);
                }
                self.events.remove(i);
                self.events.insert(i, (event, path));
                proof {
                    assert((self.events_view()[i as int]).0 == event && (self.events_view()[
                        i as int
                    ].1)@ == sound_effect.file@);
                    assert(has_event(old(self).events_view(), event));
                    assert forall|k: int|
                        0 <= k < self.events@.len() && k != i implies (#[trigger] self.events@[k])
                        == old(self).events_view()[k] by {
                        assert(self.events@ == old(self).events_view().remove(i as int).insert(
                            i as int,
                            self.events@[i as int],
                        ));
                    }
                    assert forall|k: int|
                        0 <= k < old(self).events_view().len() && (#[trigger] old(self).events_view()[k]).0
                            != event implies self.events@[k] == old(self).events_view()[k] by {
                        if k == i as int {
                            assert(old(self).events_view()[i as int].0 == event);
                        }
                    }
                    assert forall|a: int, b: int|
                        0 <= a < b < self.events@.len() implies self.events@[a].0
                        != self.events@[b].0 by {
                        assert(old(self).events_view()[a].0 != old(self).events_view()[b].0);
                    }
                }
            },
            None => {
                proof {
                    assert(path@ == sound_effect.file@);
                }
                self.events.push((event, path));
                proof {
                    assert(self.events@.drop_last() =~= old(self).events_view());
                    let last = self.events@.len() - 1;
                    assert((self.events_view()[last]).0 == event && (self.events_view()[last].1)@
                        == sound_effect.file@);
                    assert forall|a: int, b: int|
                        0 <= a < b < self.events@.len() implies self.events@[a].0
                        != self.events@[b].0 by {
                        if b < self.events@.len() - 1 {
                            assert(old(self).events_view()[a].0 != old(self).events_view()[b].0);
                        } else {
                            assert(self.events@[a] == old(self).events_view()[a]);
                            assert(!has_event(old(self).events_view(), event));
                        }
                    }
                }
            },
        }
        proof {
            assert forall|a: int, b: int|
                0 <= a < b < self.opened_files@.len() implies self.opened_files@[a].0@
                != self.opened_files@[b].0@ by {
                assert(old(self).files_view()[a].0@ != old(self).files_view()[b].0@);
            }
        }
    }

    /// The configured paths that have not been loaded yet.
    pub fn unloaded_files(&self) -> (r: Vec<String>)
        ensures
            forall|t: int|
                0 <= t < r@.len() ==> !has_file(self.files_view(), (#[trigger] r@[t])@),
            forall|t: int|
                0 <= t < r@.len() ==> configured_path(self.events_view(), (#[trigger] r@[t])@),
            forall|q: int|
                0 <= q < self.events_view().len() && !has_file(
                    self.files_view(),
                    ((#[trigger] self.events_view()[q]).1)@,
                ) ==> (exists|t: int|
                    0 <= t < r@.len() && ((#[trigger] r@[t]))@ == (self.events_view()[q].1)@),
    {
        let mut out: Vec<String> = Vec::new();
        let mut i: usize = 0;
        while i < self.events.len()
            invariant
                i <= self.events@.len(),
                forall|t: int|
                    0 <= t < out@.len() ==> !has_file(self.files_view(), (#[trigger] out@[t])@),
                forall|t: int|
                    0 <= t < out@.len() ==> configured_path(
                        self.events_view(),
                        (#[trigger] out@[t])@,
                    ),
                forall|q: int|
                    0 <= q < i && !has_file(
                        self.files_view(),
                        ((#[trigger] self.events_view()[q]).1)@,
                    ) ==> (exists|t: int|
                        0 <= t < out@.len() && ((#[trigger] out@[t]))@ == (self.events_view()[q].1)@),
            decreases self.events@.len() - i,
        {
            let path = self.events[i].1.clone();
            let ghost pv = path@;
            proof {
                assert(((self.events_view()[i as int]).1)@ == pv);
            }
            if self.find_file(path.as_str()).is_none() {
                proof {
                    assert(((self.events_view()[i as int]).1)@ == pv);
                    assert(!has_file(self.files_view(), pv));
                }
                let ghost before = out@;
                out.push(path);
                proof {
                    assert forall|t: int|
                        0 <= t < out@.len() implies !has_file(
                        self.files_view(),
                        (#[trigger] out@[t])@,
                    ) by {
                        if t < out@.len() - 1 {
                            assert(out@[t] == before[t]);
                        } else {
                            assert((out@[t])@ == pv);
                        }
                    }
                    assert forall|q: int|
                        0 <= q < i + 1 && !has_file(
                        self.files_view(),
                        ((#[trigger] self.events_view()[q]).1)@,
                    ) implies (exists|t: int|
                        0 <= t < out@.len() && ((#[trigger] out@[t]))@ == (self.events_view()[q].1)@) by {
                        if q < i as int {
                            let w = choose|t: int|
                                0 <= t < before.len() && ((#[trigger] before[t]))@
                                    == (self.events_view()[q].1)@;
                            assert(out@[w] == before[w]);
                            assert((out@[w])@ == (self.events_view()[q].1)@);
                        } else {
                            assert((out@[out@.len() - 1])@ == (self.events_view()[q].1)@);
                        }
                    }
                    assert forall|t: int|
                        0 <= t < out@.len() implies configured_path(
                        self.events_view(),
                        (#[trigger] out@[t])@,
                    ) by {
                        if t < out@.len() - 1 {
                            assert(out@[t] == before[t]);
                            assert(configured_path(self.events_view(), (before[t])@));
                        } else {
                            assert((out@[t])@ == pv);
                            assert(((self.events_view()[i as int]).1)@ == (out@[t])@);
                        }
                    }
                }
            }
            i = i + 1;
        }
        out
    }

    /// The samples to play when `event` fires: the loaded data of its
    /// configured file, or the default effect when no file is configured,
    /// it was never loaded, or loading failed.
    pub fn get_samples(&self, event: NotificationEvent) -> (r: &Vec<i16>)
        requires
            self.wf(),
        ensures
            samples_for(self, event, r@),
    {
        match self.find_event(event) {
            Some(i) => {
                let path = self.events[i].1.clone();
                match self.find_file(path.as_str()) {
                    Some(j) => {
                        match &self.opened_files[j].1 {
                            Some(v) => {
                                proof {
                                    assert((self.events_view()[i as int]).0 == event);
                                    assert(((self.files_view()[j as int]).0)@ == (self.events_view()[
                                        i as int
                                    ].1)@);
                                }
                                v
                            },
                            None => {
                                proof {
                                    lemma_no_other_file(
                                        self.events_view(),
                                        self.files_view(),
                                        event,
                                        i as int,
                                        j as int,
                                    );
                                }
                                &self.default_sound_effect
                            },
                        }
                    },
                    None => {
                        proof {
                            lemma_no_file(self.events_view(), self.files_view(), event, i as int);
                        }
                        &self.default_sound_effect
                    },
                }
            },
            None => {
                &self.default_sound_effect
            },
        }
    }

    /// Forget every configured event and every loaded file; only the
    /// default effect stays.
    pub fn clear(&mut self)
        ensures
            final(self).wf(),
            final(self).events_view().len() == 0,
            final(self).files_view().len() == 0,
            final(self).default_view() == old(self).default_view(),
            final(self).num_channels_spec() == old(self).num_channels_spec(),
    {
        self.events.clear();
        self.opened_files.clear();
    }
}

/// With unique event keys and unique file paths, once the entry for the
/// event points at a file whose cache entry holds no samples, no pair of
/// indices can witness loaded samples for the event.
proof fn lemma_no_other_file(
    events: Seq<(NotificationEvent, String)>,
    files: Seq<(String, Option<Vec<i16>>)>,
    event: NotificationEvent,
    i: int,
    j: int,
)
    requires
        forall|a: int, b: int| 0 <= a < b < events.len() ==> events[a].0 != events[b].0,
        forall|a: int, b: int| 0 <= a < b < files.len() ==> files[a].0@ != files[b].0@,
        0 <= i < events.len(),
        0 <= j < files.len(),
        events[i].0 == event,
        (files[j].0)@ == (events[i].1)@,
        files[j].1 is None,
    ensures
        !exists|a: int, b: int|
            0 <= a < events.len() && 0 <= b < files.len() && (#[trigger] events[a]).0 == event && ((
            #[trigger] files[b]).0)@ == (events[a].1)@ && files[b].1 is Some,
{
    assert forall|a: int, b: int|
        0 <= a < events.len() && 0 <= b < files.len() && (#[trigger] events[a]).0 == event && ((
        #[trigger] files[b]).0)@ == (events[a].1)@ implies files[b].1 is None by {
        if a < i {
            assert(events[a].0 != events[i].0);
        }
        if a > i {
            assert(events[i].0 != events[a].0);
        }
        if b < j {
            assert(files[b].0@ != files[j].0@);
        }
        if b > j {
            assert(files[j].0@ != files[b].0@);
        }
    }
}

/// With a unique entry for the event whose path is not in the cache at all,
/// no pair of indices can witness loaded samples for the event.
proof fn lemma_no_file(
    events: Seq<(NotificationEvent, String)>,
    files: Seq<(String, Option<Vec<i16>>)>,
    event: NotificationEvent,
    i: int,
)
    requires
        forall|a: int, b: int| 0 <= a < b < events.len() ==> events[a].0 != events[b].0,
        0 <= i < events.len(),
        events[i].0 == event,
        !has_file(files, (events[i].1)@),
    ensures
        !exists|a: int, b: int|
            0 <= a < events.len() && 0 <= b < files.len() && (#[trigger] events[a]).0 == event && ((
            #[trigger] files[b]).0)@ == (events[a].1)@ && files[b].1 is Some,
{
    assert forall|a: int, b: int|
        0 <= a < events.len() && 0 <= b < files.len() && (#[trigger] events[a]).0 == event implies ((
        #[trigger] files[b]).0)@ != (events[a].1)@ by {
        if a < i {
            assert(events[a].0 != events[i].0);
        }
        if a > i {
            assert(events[i].0 != events[a].0);
        }
    }
}

} // verus!
