//! Capture-side data: the normalized PCM format and its conversion.
use std::collections::VecDeque;
use vstd::prelude::*;

verus! {

/// Format of the PCM handed out by the capture: sample rate, channels, bits.
#[derive(Debug, Clone, Copy, PartialEq, Eq, Structural)]
pub struct AudioFormat {
    pub sample_rate: u32,
    pub channels: u16,
    pub bits_per_sample: u16,
}

impl Default for AudioFormat {
    fn default() -> (f: Self)
        ensures
            f.sample_rate == 44_100,
            f.channels == 2,
            f.bits_per_sample == 16,
    {
        AudioFormat { sample_rate: 44_100, channels: 2, bits_per_sample: 16 }
    }
}

/// One block of interleaved PCM from the capture.
#[derive(Debug)]
pub struct CapturedChunk {
    pub samples: Vec<i16>,
    pub sample_rate: u32,
    pub channels: u16,
}

/// The 16-bit sample stored little-endian in `lo`, `hi`, as `i16::from_le_bytes` reads it.
pub open spec fn le_i16(lo: u8, hi: u8) -> i16 {
    (lo as int + hi as int * 256) as u16 as i16
}

/// The sample of channel `channel` in frame `frame` of interleaved 16-bit
/// PCM with `channels` channels: channels past the last one read the last
/// one, and reads past the end of the buffer give silence.
pub open spec fn s16_sample_at(raw: Seq<u8>, frame: int, channels: int, channel: int) -> i16 {
    let last = if channels == 0 {
        0
    } else {
        channels - 1
    };
    let ch = if channel < last {
        channel
    } else {
        last
    };
    let idx = (frame * channels + ch) * 2;
    if idx + 1 >= raw.len() {
        0
    } else {
        le_i16(raw[idx], raw[idx + 1])
    }
}

/// Interleaved native 16-bit PCM made stereo: the first two channels are
/// kept, and mono is doubled.
pub open spec fn spec_s16_to_stereo(raw: Seq<u8>, frames: int, channels: int) -> Seq<i16> {
    Seq::new(
        (frames * 2) as nat,
        |i: int|
            {
                let f = i / 2;
                let left = s16_sample_at(raw, f, channels, 0);
                if i % 2 == 0 {
                    left
                } else if channels > 1 {
                    s16_sample_at(raw, f, channels, 1)
                } else {
                    left
                }
            },
    )
}

/// The highest channel read of a frame: the second one of a stereo (or
/// wider) source, the only one otherwise.
pub open spec fn highest_read_channel(channels: int) -> int {
    if channels > 1 {
        1
    } else {
        0
    }
}

/// The conversion's index arithmetic stays within `usize`: the output
/// length `frames * 2`, and the byte index after the last sample read.
pub open spec fn s16_indices_fit(frames: int, channels: int) -> bool {
    &&& frames * 2 <= usize::MAX
    &&& frames > 0 ==> ((frames - 1) * channels + highest_read_channel(channels)) * 2 + 1
        <= usize::MAX
}

fn s16_sample_at_exec(raw: &[u8], frame: usize, channels: usize, channel: usize) -> (s: i16)
    requires
        (frame as int * channels as int + highest_read_channel(channels as int)) * 2 + 1 <= usize::MAX,
        channel <= 1,
    ensures
        s == s16_sample_at(raw@, frame as int, channels as int, channel as int),
{
    let last = if channels == 0 {
        0
    } else {
        channels - 1
    };
    let ch = if channel < last {
        channel
    } else {
        last
    };
    assert(ch <= highest_read_channel(channels as int));
    let idx = (frame * channels + ch) * 2;
    if idx + 1 >= raw.len() {
        0
    } else {
        let v: u16 = raw[idx] as u16 + (raw[idx + 1] as u16) * 256;
        v as i16
    }
}

/// Converts native interleaved 16-bit PCM of `frames` frames and `channels`
/// channels to stereo.
pub fn convert_s16_to_stereo(raw: &[u8], frames: usize, channels: usize) -> (out: Vec<i16>)
    requires
        s16_indices_fit(frames as int, channels as int),
    ensures
        out@ == spec_s16_to_stereo(raw@, frames as int, channels as int),
{
    let mut out: Vec<i16> = Vec::new();
    let mut frame: usize = 0;
    while frame < frames
        invariant
            frame <= frames,
            s16_indices_fit(frames as int, channels as int),
            out@.len() == frame * 2,
            forall|i: int| 0 <= i < out@.len() ==> #[trigger] out@[i] == spec_s16_to_stereo(raw@, frames as int, channels as int)[i],
        decreases frames - frame,
    {
        proof {
            assert((frame as int) * (channels as int) <= (frames as int - 1) * (channels as int)) by (nonlinear_arith)
                requires
                    frame < frames,
                    channels >= 0,
            ;
        }
        let left = s16_sample_at_exec(raw, frame, channels, 0);
        let right = if channels > 1 {
            s16_sample_at_exec(raw, frame, channels, 1)
        } else {
            left
        };
        out.push(left);
        out.push(right);
        proof {
            let full = spec_s16_to_stereo(raw@, frames as int, channels as int);
            assert((2 * frame as int) / 2 == frame as int);
            assert((2 * frame as int + 1) / 2 == frame as int);
            assert(out@[2 * frame as int] == full[2 * frame as int]);
            assert(out@[2 * frame as int + 1] == full[2 * frame as int + 1]);
        }
        frame = frame + 1;
    }
    proof {
        assert(out@ =~= spec_s16_to_stereo(raw@, frames as int, channels as int));
    }
    out
}

/// The stereo conversion gives two samples per frame; a sample whose bytes
/// do not both lie inside the buffer reads as silence; mono is doubled.
pub proof fn law_stereo_conversion_shape(raw: Seq<u8>, frames: nat, channels: nat)
    ensures
        spec_s16_to_stereo(raw, frames as int, channels as int).len() == 2 * frames,
        forall|f: int|
            0 <= f < frames && (f * channels) * 2 + 1 >= raw.len() ==> #[trigger] spec_s16_to_stereo(
                raw,
                frames as int,
                channels as int,
            )[2 * f] == 0,
        forall|f: int|
            0 <= f < frames && channels > 1 && (f * channels + 1) * 2 + 1 >= raw.len()
                ==> #[trigger] spec_s16_to_stereo(raw, frames as int, channels as int)[2 * f + 1]
                == 0,
        channels <= 1 ==> forall|f: int|
            0 <= f < frames ==> #[trigger] spec_s16_to_stereo(raw, frames as int, channels as int)[2
                * f] == spec_s16_to_stereo(raw, frames as int, channels as int)[2 * f + 1],
{
    let out = spec_s16_to_stereo(raw, frames as int, channels as int);
    assert forall|f: int| 0 <= f < frames implies #[trigger] out[2 * f] == s16_sample_at(
        raw,
        f,
        channels as int,
        0,
    ) && out[2 * f + 1] == (if channels > 1 {
        s16_sample_at(raw, f, channels as int, 1)
    } else {
        out[2 * f]
    }) by {
        assert((2 * f) / 2 == f && (2 * f + 1) / 2 == f && (2 * f) % 2 == 0 && (2 * f + 1) % 2
            == 1);
    }
}

/// The magnitude of a sample, as `i16::unsigned_abs` gives it.
pub open spec fn unsigned_abs(x: i16) -> u16 {
    if x < 0 {
        (-(x as int)) as u16
    } else {
        x as u16
    }
}

/// The largest magnitude among the samples (0 for none).
pub open spec fn peak_of(s: Seq<i16>) -> u16
    decreases s.len(),
{
    if s.len() == 0 {
        0
    } else {
        let p = peak_of(s.drop_last());
        let a = unsigned_abs(s.last());
        if a > p {
            a
        } else {
            p
        }
    }
}

/// The peak magnitude of a chunk.
pub fn chunk_peak(samples: &[i16]) -> (p: u16)
    ensures
        p == peak_of(samples@),
{
    let mut p: u16 = 0;
    let mut i: usize = 0;
    while i < samples.len()
        invariant
            i <= samples@.len(),
            p == peak_of(samples@.take(i as int)),
        decreases samples.len() - i,
    {
        let x = samples[i];
        let a: u16 = if x < 0 {
            (-(x as i32)) as u16
        } else {
            x as u16
        };
        if a > p {
            p = a;
        }
        proof {
            assert(samples@.take(i + 1).drop_last() =~= samples@.take(i as int));
        }
        i = i + 1;
    }
    proof {
        assert(samples@.take(samples@.len() as int) =~= samples@);
    }
    p
}

/// The magnitude of a sample, as `i16::saturating_abs` gives it.
pub open spec fn saturating_abs(x: i16) -> i16 {
    if x == i16::MIN {
        i16::MAX
    } else if x < 0 {
        (-x) as i16
    } else {
        x
    }
}

/// The largest saturated magnitude among the samples, none for no samples.
pub open spec fn probe_peak_of(s: Seq<i16>) -> Option<i16>
    decreases s.len(),
{
    if s.len() == 0 {
        None
    } else {
        let a = saturating_abs(s.last());
        match probe_peak_of(s.drop_last()) {
            None => Some(a),
            Some(p) => if a > p {
                Some(a)
            } else {
                Some(p)
            },
        }
    }
}

/// The peak a capture probe reports for one chunk.
pub fn probe_peak(samples: &[i16]) -> (p: Option<i16>)
    ensures
        p == probe_peak_of(samples@),
{
    let mut p: Option<i16> = None;
    let mut i: usize = 0;
    while i < samples.len()
        invariant
            i <= samples@.len(),
            p == probe_peak_of(samples@.take(i as int)),
        decreases samples.len() - i,
    {
        let x = samples[i];
        let a: i16 = if x == i16::MIN {
            i16::MAX
        } else if x < 0 {
            -x
        } else {
            x
        };
        p = match p {
            None => Some(a),
            Some(q) => if a > q {
                Some(a)
            } else {
                Some(q)
            },
        };
        proof {
            assert(samples@.take(i + 1).drop_last() =~= samples@.take(i as int));
        }
        i = i + 1;
    }
    proof {
        assert(samples@.take(samples@.len() as int) =~= samples@);
    }
    p
}

// ---------------------------------------------------------------------------
// Native formats and block framing
// ---------------------------------------------------------------------------

/// Samples of one block handed out by the capture: 1024 stereo frames.
pub const OUTPUT_BLOCK_SAMPLES: usize = 2048;

/// A native shared-mode sample format that the capture can convert.
#[derive(Debug, Clone, Copy, PartialEq, Eq, Structural)]
pub enum NativeSampleKind {
    /// Signed 16-bit integers.
    S16,
    /// 32-bit floats.
    F32,
}

/// Why a native endpoint format cannot be captured.
#[derive(Debug, Clone, Copy, PartialEq, Eq, Structural)]
pub enum NativeFormatError {
    /// Neither 32-bit float nor 16-bit integer samples.
    Unsupported { is_float: bool, bits_per_sample: u16, channels: usize, sample_rate: u32 },
    /// The endpoint reports no channels.
    NoChannels,
}

pub open spec fn spec_native_sample_kind(
    is_float: bool,
    bits_per_sample: u16,
    channels: usize,
    sample_rate: u32,
) -> Result<NativeSampleKind, NativeFormatError> {
    if is_float && bits_per_sample == 32 {
        if channels == 0 {
            Err(NativeFormatError::NoChannels)
        } else {
            Ok(NativeSampleKind::F32)
        }
    } else if !is_float && bits_per_sample == 16 {
        if channels == 0 {
            Err(NativeFormatError::NoChannels)
        } else {
            Ok(NativeSampleKind::S16)
        }
    } else {
        Err(NativeFormatError::Unsupported { is_float, bits_per_sample, channels, sample_rate })
    }
}

/// Classifies the endpoint's native mix format (float or integer samples,
/// bits, channels): 32-bit float and 16-bit integer with at least one
/// channel can be captured.
pub fn native_sample_kind(is_float: bool, bits_per_sample: u16, channels: usize, sample_rate: u32) -> (r:
    Result<NativeSampleKind, NativeFormatError>)
    ensures
        r == spec_native_sample_kind(is_float, bits_per_sample, channels, sample_rate),
{
    let kind = if is_float && bits_per_sample == 32 {
        NativeSampleKind::F32
    } else if !is_float && bits_per_sample == 16 {
        NativeSampleKind::S16
    } else {
        return Err(NativeFormatError::Unsupported { is_float, bits_per_sample, channels, sample_rate });
    };
    if channels == 0 {
        return Err(NativeFormatError::NoChannels);
    }
    Ok(kind)
}

/// The blocks one after the other.
pub open spec fn concat_blocks(blocks: Seq<Seq<i16>>) -> Seq<i16>
    decreases blocks.len(),
{
    if blocks.len() == 0 {
        seq![]
    } else {
        concat_blocks(blocks.drop_last()) + blocks.last()
    }
}

pub open spec fn block_views(blocks: Seq<Vec<i16>>) -> Seq<Seq<i16>> {
    blocks.map_values(|b: Vec<i16>| b@)
}

/// Appends converted samples to the pending PCM and takes every full block
/// of `block` samples off its front. Nothing is dropped or reordered: the
/// blocks followed by what stays pending are the old pending samples
/// followed by the new ones, and less than a block stays pending.
pub fn append_and_take_blocks(pending: &mut VecDeque<i16>, converted: &Vec<i16>, block: usize) -> (blocks:
    Vec<Vec<i16>>)
    requires
        block > 0,
    ensures
        concat_blocks(block_views(blocks@)) + final(pending)@ == old(pending)@ + converted@,
        forall|k: int| 0 <= k < blocks@.len() ==> (#[trigger] blocks@[k])@.len() == block,
        final(pending)@.len() < block,
{
    let ghost start = pending@;
    let mut i: usize = 0;
    while i < converted.len()
        invariant
            i <= converted@.len(),
            pending@ == start + converted@.take(i as int),
        decreases converted.len() - i,
    {
        pending.push_back(converted[i]);
        proof {
            assert(converted@.take(i + 1) =~= converted@.take(i as int).push(converted@[i as int]));
            assert(start + converted@.take(i + 1) =~= (start + converted@.take(i as int)).push(
                converted@[i as int],
            ));
        }
        i = i + 1;
    }
    proof {
        assert(converted@.take(converted@.len() as int) =~= converted@);
    }
    let ghost all = pending@;
    let mut blocks: Vec<Vec<i16>> = Vec::new();
    proof {
        assert(block_views(blocks@) =~= Seq::<Seq<i16>>::empty());
        assert(concat_blocks(block_views(blocks@)) + pending@ =~= all);
    }
    while pending.len() >= block
        invariant
            block > 0,
            concat_blocks(block_views(blocks@)) + pending@ == all,
            forall|k: int| 0 <= k < blocks@.len() ==> (#[trigger] blocks@[k])@.len() == block,
        decreases pending@.len(),
    {
        let ghost before = pending@;
        let mut b: Vec<i16> = Vec::new();
        let mut j: usize = 0;
        while j < block
            invariant
                j <= block,
                before.len() >= block,
                b@ == before.take(j as int),
                pending@ == before.skip(j as int),
            decreases block - j,
        {
            match pending.pop_front() {
                Some(x) => {
                    proof {
                        assert(before.take(j + 1) =~= before.take(j as int).push(x));
                        assert(pending@ =~= before.skip(j + 1));
                    }
                    b.push(x);
                },
                None => {
                    proof {
                        assert(false);
                    }
                },
            }
            j = j + 1;
        }
        let ghost old_views = block_views(blocks@);
        blocks.push(b);
        proof {
            let nv = block_views(blocks@);
            assert(nv =~= old_views.push(before.take(block as int)));
            assert(nv.drop_last() =~= old_views);
            assert(concat_blocks(nv) == concat_blocks(old_views) + before.take(block as int));
            assert(before =~= before.take(block as int) + before.skip(block as int));
            assert(concat_blocks(nv) + pending@ =~= concat_blocks(old_views) + before);
        }
    }
    blocks
}

} // verus!
