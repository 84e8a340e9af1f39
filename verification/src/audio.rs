//! Shaping of recorded samples. The samples themselves are of any type: nothing is computed with
//! them.

use vstd::arithmetic::div_mod::{lemma_fundamental_div_mod, lemma_fundamental_div_mod_converse};
use vstd::arithmetic::mul::lemma_mul_is_distributive_add_other_way;
use vstd::prelude::*;

verus! {

/// Samples per second that the model expects.
pub const SAMPLE_RATE: u32 = 24_000;

/// Samples that the model takes at a time, 80 ms of audio.
pub const CHUNK_SIZE: usize = 1_920;

/// Samples of silence after a recording, beyond the delay of the model, so that all of the audio is
/// processed.
pub const TAIL_SILENCE: usize = 24_000;

/// Whether audio at this rate has to be resampled for the model.
pub fn needs_resampling(sample_rate: u32) -> (r: bool)
    ensures
        r == (sample_rate != SAMPLE_RATE),
{
    sample_rate != SAMPLE_RATE
}

/// A row of `n` equal samples.
pub open spec fn repeated<T>(sample: T, n: nat) -> Seq<T> {
    Seq::new(n, |i: int| sample)
}

/// A recording with silence around it.
pub open spec fn padded<T>(pcm: Seq<T>, silence: T, prefix: nat, delay: nat) -> Seq<T> {
    repeated(silence, prefix) + pcm + repeated(silence, delay + TAIL_SILENCE as nat)
}

/// Whether a recording with silence around it has a length that a `usize` can hold.
pub fn padding_fits(len: usize, prefix: usize, delay: usize) -> (r: bool)
    ensures
        r == (prefix + len + delay + TAIL_SILENCE <= usize::MAX),
{
    prefix <= usize::MAX - len && delay <= usize::MAX - len - prefix && TAIL_SILENCE <= usize::MAX
        - len - prefix - delay
}

fn push_repeated<T: Copy>(out: &mut Vec<T>, sample: T, n: usize)
    ensures
        final(out)@ == old(out)@ + repeated(sample, n as nat),
{
    let ghost before = out@;
    let mut i: usize = 0;
    while i < n
        invariant
            i <= n,
            out@ == before + repeated(sample, i as nat),
        decreases n - i,
    {
        out.push(sample);
        i = i + 1;
        assert(out@ =~= before + repeated(sample, i as nat));
    }
    assert(out@ =~= before + repeated(sample, n as nat));
}

/// Puts silence around a recording: `prefix` samples before it, and after it the delay of the model
/// and another second.
pub fn pad_with_silence<T: Copy>(
    pcm: &Vec<T>,
    silence: T,
    prefix: usize,
    delay: usize,
) -> (out: Vec<T>)
    requires
        prefix + pcm@.len() + delay + TAIL_SILENCE <= usize::MAX,
    ensures
        out@ == padded(pcm@, silence, prefix as nat, delay as nat),
{
    let mut out: Vec<T> = Vec::new();
    push_repeated(&mut out, silence, prefix);
    let mut i: usize = 0;
    while i < pcm.len()
        invariant
            i <= pcm@.len(),
            out@ == repeated(silence, prefix as nat) + pcm@.take(i as int),
        decreases pcm@.len() - i,
    {
        out.push(pcm[i]);
        i = i + 1;
        assert(out@ =~= repeated(silence, prefix as nat) + pcm@.take(i as int));
    }
    assert(pcm@.take(i as int) =~= pcm@);
    push_repeated(&mut out, silence, delay + TAIL_SILENCE);
    assert(out@ =~= padded(pcm@, silence, prefix as nat, delay as nat));
    out
}

/// The recording stands unchanged in its padded form, and all around it is silence.
pub proof fn law_padding_keeps_recording<T>(pcm: Seq<T>, silence: T, prefix: nat, delay: nat)
    ensures
        padded(pcm, silence, prefix, delay).len() == prefix + pcm.len() + delay + 24_000,
        padded(pcm, silence, prefix, delay).subrange(prefix as int, (prefix + pcm.len()) as int)
            == pcm,
        forall|i: int|
            0 <= i < prefix || prefix + pcm.len() <= i < prefix + pcm.len() + delay + 24_000
                ==> #[trigger] padded(pcm, silence, prefix, delay)[i] == silence,
{
    assert(padded(pcm, silence, prefix, delay).subrange(
        prefix as int,
        (prefix + pcm.len()) as int,
    ) =~= pcm);
}

/// The number of frames, the last of which may be cut short, in `len` interleaved samples.
pub open spec fn frame_count(len: nat, channels: nat) -> nat {
    if len == 0 {
        0
    } else {
        ((len - 1) / channels as int + 1) as nat
    }
}

/// The first sample of each frame.
pub open spec fn first_of_frames<T>(data: Seq<T>, channels: nat) -> Seq<T> {
    Seq::new(frame_count(data.len(), channels), |i: int| data[i * channels])
}

/// The first channel of interleaved samples.
pub fn first_channel<T: Copy>(data: &[T], channels: usize) -> (out: Vec<T>)
    requires
        channels > 0,
    ensures
        out@ == first_of_frames(data@, channels as nat),
{
    let mut out: Vec<T> = Vec::new();
    if data.len() == 0 {
        assert(out@ =~= first_of_frames(data@, channels as nat));
        return out;
    }
    let mut i: usize = 0;
    let ghost last = data@.len() - 1;
    let ghost frames = frame_count(data@.len(), channels as nat);
    out.push(data[0]);
    proof {
        lemma_fundamental_div_mod(last, channels as int);
        assert(0 * channels == 0);
    }
    while data.len() - 1 - i >= channels
        invariant
            channels > 0,
            data@.len() > 0,
            last == data@.len() - 1,
            i <= last,
            out@.len() > 0,
            i == (out@.len() - 1) * channels,
            forall|k: int| 0 <= k < out@.len() ==> out@[k] == data@[#[trigger] (k * channels)],
            forall|k: int| 0 <= k < out@.len() ==> 0 <= #[trigger] (k * channels) <= last,
        decreases last - i,
    {
        let ghost n = out@.len() as int;
        proof {
            lemma_mul_is_distributive_add_other_way(channels as int, n - 1, 1);
        }
        i = i + channels;
        assert(i == n * channels);
        out.push(data[i]);
    }
    proof {
        let n = out@.len() as int;
        let rest = last - i;
        assert(last == (n - 1) * channels + rest);
        lemma_fundamental_div_mod_converse(last, channels as int, n - 1, rest);
        assert(n == frames);
        assert(out@ =~= first_of_frames(data@, channels as nat));
    }
    out
}

/// Audio with a single channel is taken as it is.
pub proof fn law_single_channel_is_kept<T>(data: Seq<T>)
    ensures
        first_of_frames(data, 1) == data,
{
    assert(first_of_frames(data, 1) =~= data);
}

/// Of every whole frame exactly one sample is kept: `frames` whole frames give `frames` samples.
pub proof fn law_one_sample_per_frame<T>(data: Seq<T>, channels: nat, frames: nat)
    requires
        channels > 0,
        data.len() == frames * channels,
    ensures
        first_of_frames(data, channels).len() == frames,
        forall|i: int|
            0 <= i < frames ==> #[trigger] first_of_frames(data, channels)[i] == data[i * channels],
{
    if frames == 0 {
        assert(data.len() == 0) by (nonlinear_arith)
            requires
                data.len() == frames * channels,
                frames == 0,
        ;
    } else {
        assert(data.len() > 0 && data.len() - 1 == (frames - 1) * channels + (channels - 1))
            by (nonlinear_arith)
            requires
                data.len() == frames * channels,
                frames > 0,
                channels > 0,
        ;
        lemma_fundamental_div_mod_converse(
            data.len() - 1,
            channels as int,
            frames - 1,
            channels - 1,
        );
    }
}

/// The number of chunks in `len` samples, the last of which may be cut short.
pub open spec fn chunk_count(len: nat) -> nat {
    ((len + CHUNK_SIZE - 1) / CHUNK_SIZE as int) as nat
}

/// Where chunk `i` of `len` samples ends.
pub open spec fn chunk_end(len: nat, i: int) -> int {
    if (i + 1) * CHUNK_SIZE <= len {
        (i + 1) * CHUNK_SIZE
    } else {
        len as int
    }
}

/// The beginnings and ends of the chunks that a recording of `len` samples is processed in.
pub fn chunk_bounds(len: usize) -> (bounds: Vec<(usize, usize)>)
    ensures
        bounds@.len() == chunk_count(len as nat),
        forall|i: int|
            0 <= i < bounds@.len() ==> (#[trigger] bounds@[i]).0 == i * CHUNK_SIZE && bounds@[i].1
                == chunk_end(len as nat, i),
{
    let mut bounds: Vec<(usize, usize)> = Vec::new();
    let mut start: usize = 0;
    while start < len
        invariant
            start <= len,
            start < len ==> start == bounds@.len() * CHUNK_SIZE,
            start == len ==> bounds@.len() == chunk_count(len as nat),
            forall|i: int|
                0 <= i < bounds@.len() ==> (#[trigger] bounds@[i]).0 == i * CHUNK_SIZE
                    && bounds@[i].1 == chunk_end(len as nat, i),
        decreases len - start,
    {
        let end = if len - start > CHUNK_SIZE {
            start + CHUNK_SIZE
        } else {
            len
        };
        bounds.push((start, end));
        start = end;
    }
    bounds
}

/// The samples of chunk `i`.
pub open spec fn chunk_samples<T>(pcm: Seq<T>, i: int) -> Seq<T> {
    pcm.subrange(i * CHUNK_SIZE, chunk_end(pcm.len(), i))
}

/// The samples of the first `n` chunks, one chunk after the other.
pub open spec fn chunks_joined<T>(pcm: Seq<T>, n: nat) -> Seq<T>
    decreases n,
{
    if n == 0 {
        Seq::empty()
    } else {
        chunks_joined(pcm, (n - 1) as nat) + chunk_samples(pcm, n - 1)
    }
}

/// The chunks of a recording, one after the other, are the recording; each is full but the last,
/// and none is empty.
pub proof fn law_chunks_make_up_recording<T>(pcm: Seq<T>)
    ensures
        chunks_joined(pcm, chunk_count(pcm.len())) == pcm,
        forall|i: int|
            0 <= i < chunk_count(pcm.len()) ==> 0 < (#[trigger] chunk_samples(pcm, i)).len()
                <= CHUNK_SIZE,
        forall|i: int|
            0 <= i < chunk_count(pcm.len()) - 1 ==> (#[trigger] chunk_samples(pcm, i)).len()
                == CHUNK_SIZE,
{
    let n = chunk_count(pcm.len());
    lemma_chunks_joined(pcm, n);
    assert(pcm.take(pcm.len() as int) =~= pcm);
}

proof fn lemma_chunks_joined<T>(pcm: Seq<T>, n: nat)
    requires
        n <= chunk_count(pcm.len()),
    ensures
        chunks_joined(pcm, n) == pcm.take(
            if n == 0 {
                0
            } else {
                chunk_end(pcm.len(), n - 1)
            },
        ),
    decreases n,
{
    if n == 0 {
        assert(pcm.take(0) =~= Seq::<T>::empty());
    } else {
        lemma_chunks_joined(pcm, (n - 1) as nat);
        assert(chunks_joined(pcm, n) =~= pcm.take(chunk_end(pcm.len(), n - 1)));
    }
}

/// Audio is resampled exactly where it does not come at 24000 samples per second, the rate at which
/// a chunk lasts 80 milliseconds.
pub proof fn law_other_rates_are_resampled(sample_rate: u32, resampled: bool)
    requires
        call_ensures(needs_resampling, (sample_rate,), resampled),
    ensures
        resampled <==> sample_rate != 24_000,
        SAMPLE_RATE == 24_000,
        CHUNK_SIZE * 1_000 == 80 * SAMPLE_RATE,
{
}

/// A recording with silence around it: `prefix` samples of silence, the recording sample by sample,
/// and the delay and one second more of silence. It can be made exactly where its length can be held.
pub proof fn law_silence_surrounds_recording<T: Copy>(
    pcm: Vec<T>,
    silence: T,
    prefix: usize,
    delay: usize,
    fits: bool,
    out: Vec<T>,
)
    requires
        call_ensures(padding_fits, (pcm@.len() as usize, prefix, delay), fits),
        call_ensures(pad_with_silence::<T>, (&pcm, silence, prefix, delay), out),
        pcm@.len() <= usize::MAX,
    ensures
        fits <==> prefix + pcm@.len() + delay + 24_000 <= usize::MAX,
        fits ==> out@.len() == prefix + pcm@.len() + delay + 24_000,
        fits ==> forall|i: int|
            0 <= i < out@.len() ==> #[trigger] out@[i] == if prefix <= i < prefix + pcm@.len() {
                pcm@[i - prefix]
            } else {
                silence
            },
{
}

/// The first channel has one sample for each frame, the last of which may be cut short: sample `k` is
/// the first of frame `k`.
pub proof fn law_first_channel_has_first_samples<T: Copy>(
    data: &[T],
    channels: usize,
    out: Vec<T>,
)
    requires
        call_ensures(first_channel::<T>, (data, channels), out),
        channels > 0,
    ensures
        out@.len() == 0 <==> data@.len() == 0,
        out@.len() > 0 ==> (out@.len() - 1) * channels < data@.len() <= out@.len() * channels,
        forall|k: int| 0 <= k < out@.len() ==> #[trigger] out@[k] == data@[k * channels],
{
    if data@.len() > 0 {
        let last = data@.len() - 1;
        let n = out@.len() as int;
        lemma_fundamental_div_mod(last, channels as int);
        assert(n - 1 == last / channels as int);
        assert((n - 1) * channels <= last < (n - 1) * channels + channels) by {
            assert(channels * (last / channels as int) == (n - 1) * channels) by (nonlinear_arith)
                requires
                    n - 1 == last / channels as int,
            ;
        }
        assert((n - 1) * channels + channels == n * channels) by (nonlinear_arith);
    }
}

/// The chunks of a recording lie one behind the other from its beginning to its end, each of 1920
/// samples but the last, which has no more and is not empty.
pub proof fn law_chunks_lie_in_a_row(len: usize, bounds: Vec<(usize, usize)>)
    requires
        call_ensures(chunk_bounds, (len,), bounds),
    ensures
        bounds@.len() == 0 <==> len == 0,
        len > 0 ==> bounds@[0].0 == 0 && bounds@.last().1 == len,
        forall|i: int|
            0 <= i < bounds@.len() - 1 ==> (#[trigger] bounds@[i]).1 - bounds@[i].0 == 1920
                && bounds@[i + 1].0 == bounds@[i].1,
        len > 0 ==> 0 < bounds@.last().1 - bounds@.last().0 <= 1920,
{
}

} // verus!
