//! PCM sample transforms used by the capture pipeline: channel
//! down-mixing, source mixing, rate conversion to 16 kHz, and framing
//! into 100 ms little-endian packets.

use vstd::prelude::*;
use crate::error::ParaError;
use crate::text::{u64_to_decimal, dec_digits};
use std::collections::VecDeque;

verus! {

/// Samples per 100 ms frame at 16 kHz.
pub const FRAME_SAMPLES: usize = 1600;

/// PCM format descriptor for an audio stream.
#[derive(Clone, Copy, Debug)]
pub struct PcmFormat {
    pub sample_rate: u32,
    pub channels: u16,
}

/// A chunk of interleaved i16 PCM audio data.
pub struct AudioChunk {
    pub fmt: PcmFormat,
    pub data_i16: Vec<i16>,
}

/// Integer division rounding toward zero, as Rust's `/` does.
pub open spec fn trunc_div(a: int, b: int) -> int {
    if a >= 0 {
        a / b
    } else {
        -((-a) / b)
    }
}

/// Sum of `n` consecutive samples starting at `start`.
pub open spec fn sample_sum(s: Seq<i16>, start: int, n: int) -> int
    decreases n,
{
    if n <= 0 {
        0
    } else {
        sample_sum(s, start, n - 1) + s[start + n - 1] as int
    }
}

/// Mono down-mix of interleaved audio with `ch` channels: every frame
/// becomes the truncated average of its channels; a trailing partial
/// frame is dropped. With one channel (or none) the input is returned.
pub open spec fn mono_of(s: Seq<i16>, ch: int) -> Seq<i16> {
    if ch <= 1 {
        s
    } else {
        Seq::new((s.len() as int / ch) as nat, |f: int| trunc_div(sample_sum(s, f * ch, ch), ch) as i16)
    }
}

/// The two-source mix: the truncated average on the common prefix, then
/// the remainder of the longer source halved. An empty source yields the
/// other one unchanged.
pub open spec fn mix_of(a: Seq<i16>, b: Seq<i16>) -> Seq<i16> {
    if a.len() == 0 {
        b
    } else if b.len() == 0 {
        a
    } else {
        let longer = if a.len() > b.len() { a } else { b };
        let m = if a.len() < b.len() { a.len() } else { b.len() };
        Seq::new(
            longer.len(),
            |i: int|
                if i < m {
                    trunc_div(a[i] as int + b[i] as int, 2) as i16
                } else {
                    trunc_div(longer[i] as int, 2) as i16
                },
        )
    }
}

/// Decimation by three: every third sample starting with the first.
pub open spec fn decimate3(s: Seq<i16>) -> Seq<i16> {
    Seq::new(((s.len() + 2) / 3) as nat, |i: int| s[3 * i])
}

/// Nearest-sample conversion from 44.1 kHz to 16 kHz: the output has
/// `len * 160 / 441` samples and sample `i` is input sample
/// `i * 441 / 160` (both rounded down).
pub open spec fn nearest_44k(s: Seq<i16>) -> Seq<i16> {
    Seq::new((s.len() * 160 / 441) as nat, |i: int| s[i * 441 / 160])
}

/// Little-endian bytes of one sample.
pub open spec fn i16_le(v: i16) -> Seq<u8> {
    seq![((v as u16) % 256) as u8, ((v as u16) / 256) as u8]
}

/// Little-endian `pcm_s16le` encoding of a run of samples.
pub open spec fn pcm_le_bytes(s: Seq<i16>) -> Seq<u8>
    decreases s.len(),
{
    if s.len() == 0 {
        Seq::empty()
    } else {
        pcm_le_bytes(s.drop_last()) + i16_le(s.last())
    }
}

/// Frame `k` of a sample run: samples `[1600k, 1600(k+1))` as bytes.
pub open spec fn frame_bytes(s: Seq<i16>, k: int) -> Seq<u8> {
    pcm_le_bytes(s.subrange(k * 1600, (k + 1) * 1600))
}

/// Every complete frame of a sample run, in order.
pub open spec fn frames_of(s: Seq<i16>) -> Seq<Seq<u8>> {
    Seq::new((s.len() / 1600) as nat, |k: int| frame_bytes(s, k))
}

/// The incomplete tail of a sample run that no frame covers.
pub open spec fn carried(s: Seq<i16>) -> Seq<i16> {
    s.subrange((s.len() / 1600) as int * 1600, s.len() as int)
}

/// The 16 kHz conversion for each supported input rate; `None` for any
/// other rate.
pub open spec fn downsampled(s: Seq<i16>, sr: u32) -> Option<Seq<i16>> {
    if sr == 16000 {
        Some(s)
    } else if sr == 48000 {
        Some(decimate3(s))
    } else if sr == 44100 {
        Some(nearest_44k(s))
    } else {
        None
    }
}

/// Text of the error for an unsupported input rate.
pub open spec fn unsupported_rate_message(sr: u32) -> Seq<char> {
    "unsupported input sample_rate="@ + dec_digits(sr as nat)
        + " for downsampler; expected 48000, 44100, or 16000."@
}

proof fn lemma_pcm_le_len(s: Seq<i16>)
    ensures
        pcm_le_bytes(s).len() == 2 * s.len(),
    decreases s.len(),
{
    if s.len() > 0 {
        lemma_pcm_le_len(s.drop_last());
    }
}

fn copy_samples(s: &[i16]) -> (out: Vec<i16>)
    ensures
        out@ == s@,
{
    let mut out: Vec<i16> = Vec::new();
    let mut i: usize = 0;
    while i < s.len()
        invariant
            i <= s.len(),
            out@ == s@.subrange(0, i as int),
        decreases s.len() - i,
    {
        out.push(s[i]);
        i += 1;
    }
    assert(out@ =~= s@);
    out
}

/// Mix interleaved stereo (or N-channel) i16 samples to mono by averaging.
/// If input is already mono, returns it unchanged.
pub fn to_mono_i16(interleaved: &[i16], channels: u16) -> (out: Vec<i16>)
    ensures
        out@ == mono_of(interleaved@, channels as int),
{
    if channels <= 1 {
        return copy_samples(interleaved);
    }
    let ch = channels as usize;
    let n = interleaved.len();
    let frames = n / ch;
    let mut out: Vec<i16> = Vec::new();
    let mut f: usize = 0;
    while f < frames
        invariant
            ch == channels as usize,
            ch >= 2,
            frames == interleaved@.len() as int / (ch as int),
            f <= frames,
            n == interleaved@.len(),
            out@.len() == f,
            forall|j: int| 0 <= j < f ==> out@[j] == mono_of(interleaved@, ch as int)[j],
        decreases frames - f,
    {
        assert((f as int) * (ch as int) + (ch as int) <= interleaved@.len()) by (nonlinear_arith)
            requires
                f < frames,
                frames == interleaved@.len() as int / (ch as int),
                ch >= 2,
        ;
        assert((f as int) * (ch as int) <= interleaved@.len());
        let base = f * ch;
        let mut acc: i32 = 0;
        let mut c: usize = 0;
        while c < ch
            invariant
                ch >= 2,
                ch <= 65535,
                base as int + ch as int <= interleaved@.len(),
                n == interleaved@.len(),
                c <= ch,
                acc as int == sample_sum(interleaved@, base as int, c as int),
                -32768 * (c as int) <= acc as int <= 32767 * (c as int),
            decreases ch - c,
        {
            let x: i16 = interleaved[base + c];
            assert(-32768 * (c as int + 1) <= acc as int + x as int <= 32767 * (c as int + 1)
                && 32767 * (c as int + 1) <= 2147450880) by (nonlinear_arith)
                requires
                    -32768 * (c as int) <= acc as int <= 32767 * (c as int),
                    c < ch,
                    ch <= 65535,
                    -32768 <= x <= 32767,
            ;
            acc = acc + x as i32;
            c += 1;
        }
        let chi = ch as i32;
        let avg: i32 = if acc >= 0 { acc / chi } else { -((-acc) / chi) };
        assert(-32768 <= avg <= 32767) by (nonlinear_arith)
            requires
                -32768 * (chi as int) <= acc as int <= 32767 * (chi as int),
                chi >= 2,
                avg as int == trunc_div(acc as int, chi as int),
        ;
        out.push(avg as i16);
        proof {
            assert(base as int == (f as int) * (ch as int));
        }
        f += 1;
    }
    assert(out@ =~= mono_of(interleaved@, channels as int));
    out
}

/// Mix two mono audio sources by averaging. If one is empty, returns the other.
/// Handles different lengths by mixing up to the shorter and appending the
/// remainder of the longer one halved.
pub fn mix_sources(a: &[i16], b: &[i16]) -> (out: Vec<i16>)
    ensures
        out@ == mix_of(a@, b@),
{
    if a.len() == 0 {
        return copy_samples(b);
    }
    if b.len() == 0 {
        return copy_samples(a);
    }
    let min_len = if a.len() < b.len() { a.len() } else { b.len() };
    let max_len = if a.len() < b.len() { b.len() } else { a.len() };
    let longer: &[i16] = if a.len() > b.len() { a } else { b };
    let ghost target = mix_of(a@, b@);
    let mut out: Vec<i16> = Vec::new();
    let mut i: usize = 0;
    while i < min_len
        invariant
            a@.len() > 0,
            b@.len() > 0,
            min_len <= a@.len(),
            min_len <= b@.len(),
            min_len == a@.len() || min_len == b@.len(),
            min_len == (if a@.len() < b@.len() { a@.len() } else { b@.len() }),
            target == mix_of(a@, b@),
            i <= min_len,
            out@.len() == i,
            forall|j: int| 0 <= j < i ==> out@[j] == target[j],
        decreases min_len - i,
    {
        let s: i32 = a[i] as i32 + b[i] as i32;
        let v: i32 = if s >= 0 { s / 2 } else { -((-s) / 2) };
        out.push(v as i16);
        i += 1;
    }
    while i < max_len
        invariant
            a@.len() > 0,
            b@.len() > 0,
            min_len == (if a@.len() < b@.len() { a@.len() } else { b@.len() }),
            max_len == (if a@.len() < b@.len() { b@.len() } else { a@.len() }),
            longer@ == (if a@.len() > b@.len() { a@ } else { b@ }),
            target == mix_of(a@, b@),
            min_len <= i <= max_len,
            out@.len() == i,
            forall|j: int| 0 <= j < i ==> out@[j] == target[j],
        decreases max_len - i,
    {
        let x: i16 = longer[i];
        let v: i16 = if x >= 0 { x / 2 } else { -((-(x as i32)) / 2) as i16 };
        out.push(v);
        i += 1;
    }
    assert(out@ =~= target);
    out
}

/// Downsample mono audio to 16 kHz.
///
/// - 48000: decimation by 3 (every third sample, starting at the first).
/// - 16000: passthrough.
/// - 44100: nearest-sample resampling (`len * 160 / 441` samples, sample
///   `i` taken from input index `i * 441 / 160`).
/// - Any other rate: an audio error naming the rate.
pub fn downsample_to_16k_mono(input_mono: &[i16], input_sr: u32) -> (res: Result<Vec<i16>, ParaError>)
    ensures
        match res {
            Ok(v) => downsampled(input_mono@, input_sr) == Some(v@),
            Err(e) => downsampled(input_mono@, input_sr) is None && (e matches ParaError::Audio(m)
                && m@ == unsupported_rate_message(input_sr)),
        },
{
    if input_sr == 16000 {
        Ok(copy_samples(input_mono))
    } else if input_sr == 48000 {
        let n = input_mono.len();
        let mut out: Vec<i16> = Vec::new();
        let mut i: usize = 0;
        while i < n
            invariant
                n == input_mono@.len(),
                i <= n + 2,
                i % 3 == 0,
                out@.len() == i / 3,
                forall|j: int| 0 <= j < out@.len() ==> out@[j] == input_mono@[3 * j],
            decreases n + 3 - i,
        {
            out.push(input_mono[i]);
            i = i + 3;
        }
        assert(out@.len() == (n + 2) / 3);
        assert(out@ =~= decimate3(input_mono@));
        Ok(out)
    } else if input_sr == 44100 {
        let n = input_mono.len() as u64;
        let out_len: u64 = (n as u128 * 160 / 441) as u64;
        let mut out: Vec<i16> = Vec::new();
        let mut i: u64 = 0;
        while i < out_len
            invariant
                n == input_mono@.len(),
                out_len == n * 160 / 441,
                i <= out_len,
                out@.len() == i,
                forall|j: int| 0 <= j < i ==> out@[j] == input_mono@[j * 441 / 160],
            decreases out_len - i,
        {
            let src: u64 = (i as u128 * 441 / 160) as u64;
            assert(src < n) by (nonlinear_arith)
                requires
                    i < out_len,
                    out_len == n * 160 / 441,
                    src == i * 441 / 160,
            ;
            out.push(input_mono[src as usize]);
            i += 1;
        }
        assert(out@ =~= nearest_44k(input_mono@));
        Ok(out)
    } else {
        let mut m = String::from_str("unsupported input sample_rate=");
        let d = u64_to_decimal(input_sr as u64);
        m.append(d.as_str());
        m.append(" for downsampler; expected 48000, 44100, or 16000.");
        Err(ParaError::Audio(m))
    }
}

fn frame_of(samples: &[i16], start: usize) -> (bytes: Vec<u8>)
    requires
        start + 1600 <= samples@.len(),
    ensures
        bytes@ == pcm_le_bytes(samples@.subrange(start as int, start + 1600)),
{
    let n = samples.len();
    let mut bytes: Vec<u8> = Vec::new();
    let mut j: usize = 0;
    while j < 1600
        invariant
            start + 1600 <= samples@.len(),
            n == samples@.len(),
            j <= 1600,
            bytes@ == pcm_le_bytes(samples@.subrange(start as int, start + j)),
        decreases 1600 - j,
    {
        let v: i16 = samples[start + j];
        let u: u16 = v as u16;
        bytes.push((u % 256) as u8);
        bytes.push((u / 256) as u8);
        proof {
            let next = samples@.subrange(start as int, start + j + 1);
            assert(next.drop_last() =~= samples@.subrange(start as int, start + j));
            assert(next.last() == v);
        }
        j += 1;
    }
    bytes
}

/// Build ~100 ms frames of 16 kHz mono i16 PCM: every complete run of
/// 1600 samples becomes 3200 `pcm_s16le` bytes; a trailing partial run
/// is left out.
pub fn frame_16k_100ms(samples_16k: &[i16]) -> (frames: Vec<Vec<u8>>)
    ensures
        frames@.len() == samples_16k@.len() / 1600,
        forall|k: int|
            0 <= k < frames@.len() ==> #[trigger] frames@[k]@ == frame_bytes(samples_16k@, k),
{
    let mut frames: Vec<Vec<u8>> = Vec::new();
    let mut i: usize = 0;
    while samples_16k.len() - i >= FRAME_SAMPLES
        invariant
            i % 1600 == 0,
            i <= samples_16k@.len(),
            frames@.len() == i / 1600,
            forall|k: int|
                0 <= k < frames@.len() ==> #[trigger] frames@[k]@ == frame_bytes(samples_16k@, k),
        decreases samples_16k@.len() - i,
    {
        let bytes = frame_of(samples_16k, i);
        frames.push(bytes);
        i += FRAME_SAMPLES;
    }
    frames
}


/// Samples to drain from a capture ring per pump iteration: 100 ms of
/// interleaved audio at the stream's format.
pub fn drain_count(fmt: PcmFormat) -> (n: u64)
    ensures
        n == (fmt.sample_rate as int * fmt.channels as int) / 10,
{
    assert(fmt.sample_rate as int * fmt.channels as int <= 4294967295 * 65535) by (nonlinear_arith);
    (fmt.sample_rate as u64 * fmt.channels as u64) / 10
}

/// Input rate used for conversion: the system stream's rate when there
/// is one, else the microphone's, else 48 kHz.
pub open spec fn input_rate_of(mic: Option<PcmFormat>, sys: Option<PcmFormat>) -> u32 {
    match sys {
        Some(f) => f.sample_rate,
        None => match mic {
            Some(f) => f.sample_rate,
            None => 48000,
        },
    }
}

/// What one pump iteration produced from the drained samples.
pub enum PumpOutcome {
    /// Both sources were empty: the caller sends silence keep-alives.
    Idle,
    /// Nothing to send this round (the mix was empty or the input rate is
    /// not supported); the caller waits and retries.
    Skip,
    /// Mixed mono audio, already converted to 16 kHz.
    Samples(Vec<i16>),
}

/// Mono mix of one pump iteration before rate conversion: each drained
/// source is down-mixed with its stream's channel count (microphone
/// defaulting to one channel, system audio to two), then the two are mixed.
pub open spec fn drained_mix(
    mic: Seq<i16>,
    mic_fmt: Option<PcmFormat>,
    sys: Seq<i16>,
    sys_fmt: Option<PcmFormat>,
) -> Seq<i16> {
    let mono_mic = if mic.len() > 0 {
        mono_of(mic, match mic_fmt { Some(f) => f.channels as int, None => 1 })
    } else {
        Seq::empty()
    };
    let mono_sys = if sys.len() > 0 {
        mono_of(sys, match sys_fmt { Some(f) => f.channels as int, None => 2 })
    } else {
        Seq::empty()
    };
    mix_of(mono_mic, mono_sys)
}

/// Only system audio drained, in a known format: the pump works on the
/// system stream down-mixed by its own channel count, at its own rate.
/// For 48 kHz stereo that is one sample per three stereo frames, each the
/// truncated average of the frame's two channels.
pub proof fn law_system_only_pump(mic_fmt: Option<PcmFormat>, sys: Seq<i16>, f: PcmFormat)
    requires
        sys.len() > 0,
    ensures
        drained_mix(Seq::empty(), mic_fmt, sys, Some(f)) == mono_of(sys, f.channels as int),
        drained_mix(Seq::empty(), mic_fmt, sys, None) == mono_of(sys, 2),
        input_rate_of(mic_fmt, Some(f)) == f.sample_rate,
        f.channels == 2 ==> drained_mix(Seq::empty(), mic_fmt, sys, Some(f)).len() == sys.len() / 2,
        f.channels == 2 ==> forall|i: int|
            0 <= i < sys.len() / 2 ==> #[trigger] drained_mix(Seq::empty(), mic_fmt, sys, Some(f))[i] as int
                == trunc_div(sys[2 * i] as int + sys[2 * i + 1] as int, 2),
        (f.channels == 2 && f.sample_rate == 48000) ==> match downsampled(
            drained_mix(Seq::empty(), mic_fmt, sys, Some(f)),
            input_rate_of(mic_fmt, Some(f)),
        ) {
            Some(v) => v.len() == (sys.len() / 2 + 2) / 3 && forall|i: int|
                0 <= i < v.len() ==> #[trigger] v[i] as int == trunc_div(sys[6 * i] as int + sys[6 * i + 1] as int, 2),
            None => false,
        },
{
    let m = drained_mix(Seq::empty(), mic_fmt, sys, Some(f));
    assert(m =~= mono_of(sys, f.channels as int));
    assert(drained_mix(Seq::empty(), mic_fmt, sys, None) =~= mono_of(sys, 2));
    if f.channels == 2 {
        assert forall|i: int| 0 <= i < sys.len() / 2 implies #[trigger] m[i] as int == trunc_div(
            sys[2 * i] as int + sys[2 * i + 1] as int,
            2,
        ) by {
            assert(sample_sum(sys, i * 2, 2) == sample_sum(sys, i * 2, 1) + sys[i * 2 + 1] as int);
            assert(sample_sum(sys, i * 2, 1) == sample_sum(sys, i * 2, 0) + sys[i * 2] as int);
            assert(i * 2 == 2 * i);
        }
        if f.sample_rate == 48000 {
            let v = decimate3(m);
            assert forall|i: int| 0 <= i < v.len() implies #[trigger] v[i] as int == trunc_div(
                sys[6 * i] as int + sys[6 * i + 1] as int,
                2,
            ) by {
                assert(v[i] == m[3 * i]);
                assert(2 * (3 * i) == 6 * i);
                assert(0 <= 3 * i < sys.len() / 2);
                assert(m[3 * i] as int == trunc_div(sys[2 * (3 * i)] as int + sys[2 * (3 * i) + 1] as int, 2));
            }
        }
    }
}

/// Only microphone audio drained: the pump works on the microphone stream
/// down-mixed by its own channel count (one when unknown), at its rate when
/// there is no system stream.
pub proof fn law_mic_only_pump(mic: Seq<i16>, f: PcmFormat, sys_fmt: Option<PcmFormat>)
    requires
        mic.len() > 0,
    ensures
        drained_mix(mic, Some(f), Seq::empty(), sys_fmt) == mono_of(mic, f.channels as int),
        drained_mix(mic, None, Seq::empty(), sys_fmt) == mic,
        sys_fmt is None ==> input_rate_of(Some(f), sys_fmt) == f.sample_rate,
{
    assert(drained_mix(mic, Some(f), Seq::empty(), sys_fmt) =~= mono_of(mic, f.channels as int));
    assert(drained_mix(mic, None, Seq::empty(), sys_fmt) =~= mic);
}

/// One iteration of the capture pump: down-mix and mix the drained
/// microphone and system samples, then convert to 16 kHz.
pub fn process_drained(
    mic: &[i16],
    mic_fmt: Option<PcmFormat>,
    sys: &[i16],
    sys_fmt: Option<PcmFormat>,
) -> (out: PumpOutcome)
    ensures
        (mic@.len() == 0 && sys@.len() == 0) <==> out is Idle,
        out is Skip <==> ((mic@.len() > 0 || sys@.len() > 0) && (drained_mix(
            mic@,
            mic_fmt,
            sys@,
            sys_fmt,
        ).len() == 0 || downsampled(drained_mix(mic@, mic_fmt, sys@, sys_fmt), input_rate_of(mic_fmt, sys_fmt)) is None)),
        out matches PumpOutcome::Samples(v) ==> downsampled(
            drained_mix(mic@, mic_fmt, sys@, sys_fmt),
            input_rate_of(mic_fmt, sys_fmt),
        ) == Some(v@),
{
    if mic.len() == 0 && sys.len() == 0 {
        return PumpOutcome::Idle;
    }
    let mono_mic = if mic.len() > 0 {
        let ch: u16 = match mic_fmt { Some(f) => f.channels, None => 1 };
        to_mono_i16(mic, ch)
    } else {
        Vec::new()
    };
    let mono_sys = if sys.len() > 0 {
        let ch: u16 = match sys_fmt { Some(f) => f.channels, None => 2 };
        to_mono_i16(sys, ch)
    } else {
        Vec::new()
    };
    let mixed = mix_sources(mono_mic.as_slice(), mono_sys.as_slice());
    assert(mixed@ == drained_mix(mic@, mic_fmt, sys@, sys_fmt));
    if mixed.len() == 0 {
        return PumpOutcome::Skip;
    }
    let rate: u32 = match sys_fmt {
        Some(f) => f.sample_rate,
        None => match mic_fmt {
            Some(f) => f.sample_rate,
            None => 48000,
        },
    };
    match downsample_to_16k_mono(mixed.as_slice(), rate) {
        Ok(v) => PumpOutcome::Samples(v),
        Err(_) => PumpOutcome::Skip,
    }
}

/// Milliseconds of quiet after the last frame sent before an idle pump
/// iteration sends a silence keep-alive.
pub const KEEPALIVE_MS: u64 = 200;

/// The keep-alive of an idle pump iteration (both sources drained empty),
/// given the time since the last frame went out: one 100 ms frame of
/// 16 kHz pcm_s16le silence once `KEEPALIVE_MS` have passed, else nothing
/// (the caller sleeps and polls again). Streaming recognizers would
/// otherwise end a session that looks inactive.
pub fn idle_keepalive(ms_since_last_send: u64) -> (frame: Option<Vec<u8>>)
    ensures
        frame is Some <==> ms_since_last_send >= KEEPALIVE_MS,
        frame matches Some(f) ==> f@.len() == 2 * FRAME_SAMPLES && (forall|i: int|
            0 <= i < f@.len() ==> #[trigger] f@[i] == 0u8),
{
    if ms_since_last_send < KEEPALIVE_MS {
        return None;
    }
    let mut f: Vec<u8> = Vec::new();
    let mut i: usize = 0;
    while i < 2 * FRAME_SAMPLES
        invariant
            i <= 2 * FRAME_SAMPLES,
            f@.len() == i,
            forall|k: int| 0 <= k < f@.len() ==> #[trigger] f@[k] == 0u8,
        decreases 2 * FRAME_SAMPLES - i,
    {
        f.push(0u8);
        i += 1;
    }
    Some(f)
}

/// Frames the send queue to a recognizer holds.
pub const SEND_QUEUE_FRAMES: usize = 32;

/// Frames waiting to be sent to the recognizer. The queue is bounded: when
/// it is full, the oldest frame is dropped to make room, so a stalled
/// connection costs continuity of the oldest audio, not memory.
pub struct FrameQueue {
    frames: VecDeque<Vec<u8>>,
    capacity: usize,
}

impl FrameQueue {
    /// The waiting frames, oldest first.
    pub closed spec fn frames(&self) -> Seq<Vec<u8>> {
        self.frames@
    }

    /// Most frames the queue holds.
    pub closed spec fn capacity(&self) -> nat {
        self.capacity as nat
    }

    /// The queue holds at most its capacity, which is positive.
    pub closed spec fn wf(&self) -> bool {
        0 < self.capacity && self.frames@.len() <= self.capacity
    }

    /// An empty queue holding up to `capacity` frames.
    pub fn new(capacity: usize) -> (q: Self)
        requires
            capacity > 0,
        ensures
            q.wf(),
            q.frames() == Seq::<Vec<u8>>::empty(),
            q.capacity() == capacity,
    {
        FrameQueue { frames: VecDeque::new(), capacity }
    }

    /// Number of waiting frames.
    pub fn len(&self) -> (n: usize)
        ensures
            n == self.frames().len(),
    {
        self.frames.len()
    }

    /// Queues `frame` behind the others. When the queue is full the
    /// oldest frame is dropped first, and returned.
    pub fn push(&mut self, frame: Vec<u8>) -> (dropped: Option<Vec<u8>>)
        requires
            old(self).wf(),
        ensures
            final(self).wf(),
            final(self).capacity() == old(self).capacity(),
            old(self).frames().len() < old(self).capacity() ==> dropped is None && final(self).frames()
                == old(self).frames().push(frame),
            old(self).frames().len() == old(self).capacity() ==> dropped == Some(old(self).frames()[0])
                && final(self).frames() == old(self).frames().drop_first().push(frame),
    {
        let mut dropped: Option<Vec<u8>> = None;
        if self.frames.len() >= self.capacity {
            dropped = self.frames.pop_front();
        }
        self.frames.push_back(frame);
        dropped
    }

    /// Takes the oldest waiting frame, if any.
    pub fn pop(&mut self) -> (frame: Option<Vec<u8>>)
        requires
            old(self).wf(),
        ensures
            final(self).wf(),
            final(self).capacity() == old(self).capacity(),
            old(self).frames().len() == 0 ==> frame is None && final(self).frames() == old(self).frames(),
            old(self).frames().len() > 0 ==> frame == Some(old(self).frames()[0]) && final(self).frames()
                == old(self).frames().drop_first(),
    {
        self.frames.pop_front()
    }
}

/// Accumulates 16 kHz samples across pump iterations so that partial
/// frames are carried over instead of dropped.
pub struct FrameAccumulator {
    pending: Vec<i16>,
}

impl View for FrameAccumulator {
    type V = Seq<i16>;

    closed spec fn view(&self) -> Seq<i16> {
        self.pending@
    }
}

impl FrameAccumulator {
    /// Less than one frame is ever held back.
    pub closed spec fn wf(&self) -> bool {
        self.pending@.len() < 1600
    }

    pub fn new() -> (acc: Self)
        ensures
            acc@ == Seq::<i16>::empty(),
            acc.wf(),
    {
        FrameAccumulator { pending: Vec::new() }
    }

    /// Number of samples held back for the next frame.
    pub fn pending_len(&self) -> (n: usize)
        ensures
            n == self@.len(),
    {
        self.pending.len()
    }

    /// Appends `samples` and returns every complete 100 ms frame of the
    /// accumulated audio, keeping the incomplete tail for the next call.
    pub fn push(&mut self, samples: &[i16]) -> (frames: Vec<Vec<u8>>)
        requires
            old(self).wf(),
        ensures
            final(self).wf(),
            frames@.len() == frames_of(old(self)@ + samples@).len(),
            forall|k: int|
                0 <= k < frames@.len() ==> #[trigger] frames@[k]@ == frames_of(
                    old(self)@ + samples@,
                )[k],
            final(self)@ == carried(old(self)@ + samples@),
    {
        let ghost all = self.pending@ + samples@;
        let mut i: usize = 0;
        while i < samples.len()
            invariant
                i <= samples@.len(),
                self.pending@ == old(self)@ + samples@.subrange(0, i as int),
            decreases samples@.len() - i,
        {
            self.pending.push(samples[i]);
            i += 1;
        }
        assert(self.pending@ =~= all);
        let frames = frame_16k_100ms(self.pending.as_slice());
        let total = self.pending.len();
        assert((total as int / 1600) * 1600 <= total as int) by (nonlinear_arith);
        let start: usize = frames.len() * FRAME_SAMPLES;
        let mut rest: Vec<i16> = Vec::new();
        let mut j: usize = start;
        while j < self.pending.len()
            invariant
                start <= j <= self.pending@.len(),
                self.pending@ == all,
                rest@ == all.subrange(start as int, j as int),
            decreases self.pending@.len() - j,
        {
            rest.push(self.pending[j]);
            j += 1;
        }
        self.pending = rest;
        frames
    }
}

/// Splitting the audio into chunks does not change what is framed: the
/// frames of `p + a`, followed by the frames of its carried tail with `b`
/// appended, are the frames of `p + a + b`, and the tail left over is the
/// same.
pub proof fn law_frames_chunk_invariant(p: Seq<i16>, a: Seq<i16>, b: Seq<i16>)
    ensures
        frames_of(p + a) + frames_of(carried(p + a) + b) == frames_of(p + a + b),
        carried(carried(p + a) + b) == carried(p + a + b),
{
    let s = p + a;
    let t = s + b;
    let m: int = (s.len() / 1600) as int;
    let u = carried(s) + b;
    assert(m * 1600 <= s.len()) by (nonlinear_arith)
        requires
            m == s.len() / 1600,
    ;
    assert(u =~= t.subrange(m * 1600, t.len() as int));
    let q: int = (u.len() / 1600) as int;
    assert(q == t.len() / 1600 - m) by (nonlinear_arith)
        requires
            q == u.len() / 1600,
            u.len() == t.len() - m * 1600,
            0 <= m * 1600 <= t.len(),
    ;
    assert(p + a + b =~= t);
    let lhs = frames_of(s) + frames_of(u);
    let rhs = frames_of(t);
    assert forall|k: int| 0 <= k < rhs.len() implies lhs[k] == rhs[k] by {
        if k < m {
            assert((k + 1) * 1600 <= m * 1600) by (nonlinear_arith)
                requires
                    k < m,
            ;
            assert(s.subrange(k * 1600, (k + 1) * 1600) =~= t.subrange(k * 1600, (k + 1) * 1600));
        } else {
            let j = k - m;
            assert((j + 1) * 1600 <= q * 1600) by (nonlinear_arith)
                requires
                    j < q,
            ;
            assert(q * 1600 <= u.len()) by (nonlinear_arith)
                requires
                    q == u.len() / 1600,
            ;
            assert(j * 1600 + m * 1600 == k * 1600) by (nonlinear_arith)
                requires
                    j == k - m,
            ;
            assert(u.subrange(j * 1600, (j + 1) * 1600) =~= t.subrange(k * 1600, (k + 1) * 1600));
        }
    }
    assert(lhs =~= rhs);
    assert((q + m) * 1600 == q * 1600 + m * 1600) by (nonlinear_arith);
    assert(carried(u) =~= carried(t));
}

} // verus!
