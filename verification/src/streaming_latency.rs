//! Native streaming latency presets: what a user-facing preset means in
//! milliseconds for each streaming model family, and the stream extension a
//! model is asked to run with.

use vstd::prelude::*;

verus! {

/// Which latency control a streaming model family offers.
#[derive(Clone, Copy, Debug, PartialEq, Eq, Structural)]
pub enum NativeStreamingLatencyKind {
    Nemotron35CacheAware,
    NemotronSpeechCacheAware,
    ParakeetBuffered,
    R2T2ChunkMs,
}

/// The user-facing latency preset, fastest first.
#[derive(Clone, Copy, Debug, PartialEq, Eq, Structural)]
pub enum NativeStreamingLatencyPreset {
    Fastest,
    Fast,
    Balanced,
    Accurate,
}

/// Inclusive lower bound of the R2T2 streaming chunk size, in milliseconds.
pub const R2T2_CHUNK_MS_MIN: u32 = 80;
/// Inclusive upper bound of the R2T2 streaming chunk size, in milliseconds.
pub const R2T2_CHUNK_MS_MAX: u32 = 2000;
/// The chunk size a model without a stored value streams with.
pub const R2T2_CHUNK_MS_DEFAULT: u32 = 320;

/// Encoder frame of the FastConformer streaming families, in milliseconds.
pub const FASTCONFORMER_FRAME_MS: u32 = 80;

/// Whether `ms` is a chunk size the native side accepts.
pub fn r2t2_chunk_ms_is_valid(ms: u32) -> (b: bool)
    ensures
        b == (R2T2_CHUNK_MS_MIN <= ms <= R2T2_CHUNK_MS_MAX),
{
    R2T2_CHUNK_MS_MIN <= ms && ms <= R2T2_CHUNK_MS_MAX
}

/// What one latency setting means in milliseconds of audio: the audio the
/// model needs before it can emit a chunk's text, and the part of it that is
/// future context.
#[derive(Debug, Clone, Copy, PartialEq, Eq, Structural)]
pub struct LatencyPoint {
    pub latency_ms: u32,
    pub lookahead_ms: u32,
}

/// Right-context frames the Nemotron checkpoints were trained on, per preset.
pub open spec fn nemotron_frames(kind: NativeStreamingLatencyKind, preset: NativeStreamingLatencyPreset) -> u32 {
    match preset {
        NativeStreamingLatencyPreset::Fastest => 0,
        NativeStreamingLatencyPreset::Fast => match kind {
            NativeStreamingLatencyKind::NemotronSpeechCacheAware => 1,
            _ => 3,
        },
        NativeStreamingLatencyPreset::Balanced => 6,
        NativeStreamingLatencyPreset::Accurate => 13,
    }
}

/// Parakeet Unified `(chunk_ms, right_ms)` per preset.
pub open spec fn parakeet_chunk_right(preset: NativeStreamingLatencyPreset) -> (u32, u32) {
    match preset {
        NativeStreamingLatencyPreset::Fastest => (160, 160),
        NativeStreamingLatencyPreset::Fast => (160, 320),
        NativeStreamingLatencyPreset::Balanced => (560, 560),
        NativeStreamingLatencyPreset::Accurate => (1040, 1040),
    }
}

/// Executable form of [`nemotron_frames`].
pub fn nemotron_right_frames(kind: NativeStreamingLatencyKind, preset: NativeStreamingLatencyPreset) -> (f: u32)
    ensures
        f == nemotron_frames(kind, preset),
{
    match preset {
        NativeStreamingLatencyPreset::Fastest => 0,
        NativeStreamingLatencyPreset::Fast => match kind {
            NativeStreamingLatencyKind::NemotronSpeechCacheAware => 1,
            _ => 3,
        },
        NativeStreamingLatencyPreset::Balanced => 6,
        NativeStreamingLatencyPreset::Accurate => 13,
    }
}

/// Executable form of [`parakeet_chunk_right`].
pub fn parakeet_buffered_chunk_right_ms(preset: NativeStreamingLatencyPreset) -> (r: (u32, u32))
    ensures
        r == parakeet_chunk_right(preset),
{
    match preset {
        NativeStreamingLatencyPreset::Fastest => (160, 160),
        NativeStreamingLatencyPreset::Fast => (160, 320),
        NativeStreamingLatencyPreset::Balanced => (560, 560),
        NativeStreamingLatencyPreset::Accurate => (1040, 1040),
    }
}

/// The millisecond meaning of a latency setting.
pub open spec fn latency_point_spec(
    kind: NativeStreamingLatencyKind,
    preset: NativeStreamingLatencyPreset,
    chunk_ms: u32,
) -> LatencyPoint {
    match kind {
        NativeStreamingLatencyKind::R2T2ChunkMs => LatencyPoint {
            latency_ms: if R2T2_CHUNK_MS_MIN <= chunk_ms <= R2T2_CHUNK_MS_MAX {
                chunk_ms
            } else {
                R2T2_CHUNK_MS_DEFAULT
            },
            lookahead_ms: 0,
        },
        NativeStreamingLatencyKind::ParakeetBuffered => LatencyPoint {
            latency_ms: (parakeet_chunk_right(preset).0 + parakeet_chunk_right(preset).1) as u32,
            lookahead_ms: parakeet_chunk_right(preset).1,
        },
        _ => LatencyPoint {
            latency_ms: ((nemotron_frames(kind, preset) + 1) * FASTCONFORMER_FRAME_MS) as u32,
            lookahead_ms: (nemotron_frames(kind, preset) * FASTCONFORMER_FRAME_MS) as u32,
        },
    }
}

/// The millisecond meaning of a latency setting. `chunk_ms` is read only for
/// R2T2 and `preset` only for the preset families; an out-of-range R2T2 value
/// reports the native default it falls back to.
pub fn latency_point(kind: NativeStreamingLatencyKind, preset: NativeStreamingLatencyPreset, chunk_ms: u32) -> (p: LatencyPoint)
    ensures
        p == latency_point_spec(kind, preset, chunk_ms),
{
    match kind {
        NativeStreamingLatencyKind::R2T2ChunkMs => LatencyPoint {
            latency_ms: if r2t2_chunk_ms_is_valid(chunk_ms) {
                chunk_ms
            } else {
                R2T2_CHUNK_MS_DEFAULT
            },
            lookahead_ms: 0,
        },
        NativeStreamingLatencyKind::ParakeetBuffered => {
            let (chunk, right) = parakeet_buffered_chunk_right_ms(preset);
            LatencyPoint { latency_ms: chunk + right, lookahead_ms: right }
        },
        _ => {
            let right = nemotron_right_frames(kind, preset);
            LatencyPoint {
                latency_ms: (right + 1) * FASTCONFORMER_FRAME_MS,
                lookahead_ms: right * FASTCONFORMER_FRAME_MS,
            }
        },
    }
}

/// Which kind of stream extension a model is asked to accept.
#[derive(Clone, Copy, Debug, PartialEq, Eq, Structural)]
pub enum ExtensionKind {
    ParakeetBufferedStream,
    ParakeetStream,
    R2T2Stream,
}

/// The stream extension options handed to a model.
#[derive(Clone, Copy, Debug, PartialEq, Eq, Structural)]
pub enum StreamExtension {
    ParakeetBuffered { left_ms: Option<i32>, chunk_ms: Option<i32>, right_ms: Option<i32> },
    ParakeetStream { att_context_right: Option<i32> },
    R2T2 { chunk_size_ms: Option<u32> },
}

/// Left context of the Parakeet Unified extension, in milliseconds.
pub const PARAKEET_BUFFERED_LEFT_MS: i32 = 5600;

/// The extension a preset family is asked to run with: none for the
/// `Accurate` preset, which leaves the model on its own default.
pub open spec fn extension_spec(kind: NativeStreamingLatencyKind, preset: NativeStreamingLatencyPreset)
    -> Option<(ExtensionKind, StreamExtension)> {
    if preset == NativeStreamingLatencyPreset::Accurate {
        None
    } else {
        match kind {
            NativeStreamingLatencyKind::ParakeetBuffered => Some((
                ExtensionKind::ParakeetBufferedStream,
                StreamExtension::ParakeetBuffered {
                    left_ms: Some(PARAKEET_BUFFERED_LEFT_MS),
                    chunk_ms: Some(parakeet_chunk_right(preset).0 as i32),
                    right_ms: Some(parakeet_chunk_right(preset).1 as i32),
                },
            )),
            _ => Some((
                ExtensionKind::ParakeetStream,
                StreamExtension::ParakeetStream {
                    att_context_right: Some(nemotron_frames(kind, preset) as i32),
                },
            )),
        }
    }
}

/// Translate a `(kind, preset)` pair into the extension the model should
/// receive. R2T2 has no presets and is never asked here with one.
pub fn extension_for_kind(kind: NativeStreamingLatencyKind, preset: NativeStreamingLatencyPreset)
    -> (r: Option<(ExtensionKind, StreamExtension)>)
    requires
        preset == NativeStreamingLatencyPreset::Accurate || kind != NativeStreamingLatencyKind::R2T2ChunkMs,
    ensures
        r == extension_spec(kind, preset),
{
    if let NativeStreamingLatencyPreset::Accurate = preset {
        return None;
    }
    match kind {
        NativeStreamingLatencyKind::ParakeetBuffered => {
            let (chunk_ms, right_ms) = parakeet_buffered_chunk_right_ms(preset);
            Some((
                ExtensionKind::ParakeetBufferedStream,
                StreamExtension::ParakeetBuffered {
                    left_ms: Some(PARAKEET_BUFFERED_LEFT_MS),
                    chunk_ms: Some(chunk_ms as i32),
                    right_ms: Some(right_ms as i32),
                },
            ))
        },
        _ => Some((
            ExtensionKind::ParakeetStream,
            StreamExtension::ParakeetStream {
                att_context_right: Some(nemotron_right_frames(kind, preset) as i32),
            },
        )),
    }
}

/// The extension any native-streaming model is asked to accept: R2T2 carries
/// the exact chunk size when it is in range and nothing otherwise (the model
/// then streams at the native default); the preset families go through
/// [`extension_for_kind`]. `None` for a model without a latency control. The
/// caller attaches the extension only when the model accepts its kind.
pub fn stream_extension_for(
    kind: Option<NativeStreamingLatencyKind>,
    preset: NativeStreamingLatencyPreset,
    chunk_ms: u32,
) -> (r: Option<(ExtensionKind, StreamExtension)>)
    ensures
        r == match kind {
            None => None,
            Some(NativeStreamingLatencyKind::R2T2ChunkMs) => if R2T2_CHUNK_MS_MIN <= chunk_ms
                <= R2T2_CHUNK_MS_MAX {
                Some((ExtensionKind::R2T2Stream, StreamExtension::R2T2 { chunk_size_ms: Some(chunk_ms) }))
            } else {
                None
            },
            Some(k) => extension_spec(k, preset),
        },
{
    match kind {
        None => None,
        Some(NativeStreamingLatencyKind::R2T2ChunkMs) => {
            if r2t2_chunk_ms_is_valid(chunk_ms) {
                Some((ExtensionKind::R2T2Stream, StreamExtension::R2T2 { chunk_size_ms: Some(chunk_ms) }))
            } else {
                None
            }
        },
        Some(k) => extension_for_kind(k, preset),
    }
}

/// The milliseconds a preset reports are the values its extension sends: for
/// the cache-aware families the lookahead is the right context times the
/// encoder frame, and for Parakeet Unified the latency is chunk plus right
/// context, the lookahead the right context.
pub proof fn lemma_latency_point_matches_extension(kind: NativeStreamingLatencyKind, preset: NativeStreamingLatencyPreset, chunk_ms: u32)
    requires
        preset != NativeStreamingLatencyPreset::Accurate,
        kind != NativeStreamingLatencyKind::R2T2ChunkMs,
    ensures
        extension_spec(kind, preset) matches Some((_, ext)) && match ext {
            StreamExtension::ParakeetStream { att_context_right: Some(r) } =>
                latency_point_spec(kind, preset, chunk_ms).lookahead_ms == r * FASTCONFORMER_FRAME_MS
                && latency_point_spec(kind, preset, chunk_ms).latency_ms == (r + 1) * FASTCONFORMER_FRAME_MS,
            StreamExtension::ParakeetBuffered { chunk_ms: Some(c), right_ms: Some(r), .. } =>
                latency_point_spec(kind, preset, chunk_ms).latency_ms == c + r
                && latency_point_spec(kind, preset, chunk_ms).lookahead_ms == r,
            _ => false,
        },
{
}

/// The default chunk size is itself one the native side accepts.
pub proof fn lemma_r2t2_default_in_range()
    ensures
        R2T2_CHUNK_MS_MIN <= R2T2_CHUNK_MS_DEFAULT <= R2T2_CHUNK_MS_MAX,
{
}

} // verus!
