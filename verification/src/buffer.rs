//! A medium decoded as a whole.

use vstd::prelude::*;
use crate::decoder::{DecoderView, SymphoniaCDecoder, read_frames, supply, taken, took};
use crate::error::ApiError;
use crate::session::failed;
use crate::status::SYMPHONIA_C_INTERNAL_ERROR;

verus! {

/// How many frames are read at a time where a medium is decoded as a whole.
pub const CHUNK_FRAMES: usize = 4096;

/// The audio of a whole medium.
#[derive(Debug)]
pub struct SymphoniaCAudioBuffer {
    /// The samples, frame by frame.
    pub samples: Vec<u32>,
    /// The number of samples.
    pub sample_count: usize,
    /// The number of frames.
    pub frames: usize,
    /// The number of channels.
    pub channels: u32,
    /// The sample rate in Hertz.
    pub sample_rate: u32,
}

impl SymphoniaCAudioBuffer {
    /// The buffer holds nothing.
    pub open spec fn is_empty(self) -> bool {
        &&& self.samples@ == Seq::<u32>::empty()
        &&& self.sample_count == 0
        &&& self.frames == 0
        &&& self.channels == 0
        &&& self.sample_rate == 0
    }
}

/// A buffer that holds nothing.
pub fn empty_audio_buffer() -> (buffer: SymphoniaCAudioBuffer)
    ensures
        buffer.is_empty(),
{
    SymphoniaCAudioBuffer {
        samples: Vec::new(),
        sample_count: 0,
        frames: 0,
        channels: 0,
        sample_rate: 0,
    }
}

/// So many samples of silence.
pub open spec fn silence(count: int) -> Seq<u32> {
    Seq::new(count as nat, |i: int| 0u32)
}

/// The number of samples that a chunk is to bring.
pub open spec fn chunk_want(before: DecoderView) -> int {
    CHUNK_FRAMES * before.channels
}

/// A chunk was read from `before` to `after`, into room for frames of `stride` samples.
pub open spec fn read_chunk(before: DecoderView, after: DecoderView, stride: int) -> bool {
    let want = chunk_want(before);
    &&& 0 < before.channels <= stride
    &&& took(before, after, want)
    &&& !failed(after.rounds_since(before))
    &&& taken(before, after, want) == want || after.eof
}

/// Reading a chunk failed on the way from `before` to `after`.
pub open spec fn chunk_failed(
    before: DecoderView,
    after: DecoderView,
    stride: int,
    error: ApiError,
) -> bool {
    exists|out: Seq<u32>| #[trigger]
        read_frames(
            before,
            after,
            silence(CHUNK_FRAMES * stride),
            out,
            CHUNK_FRAMES,
            Err(error),
        )
}

/// The number of frames that the chunk brought.
pub open spec fn chunk_frames(before: DecoderView, after: DecoderView) -> int {
    taken(before, after, chunk_want(before)) / before.channels as int
}

/// The samples that are kept of the chunk: room for so many frames of `stride` samples, with the
/// samples of the chunk at its front and silence after them. There is silence only where frames have
/// become smaller than `stride`.
pub open spec fn chunk_samples(before: DecoderView, after: DecoderView, stride: int) -> Seq<u32> {
    let n = taken(before, after, chunk_want(before));
    (supply(before, after).take(n) + silence(CHUNK_FRAMES * stride - n)).take(
        chunk_frames(before, after) * stride,
    )
}

/// The chunk brought no frame, and there will be no more.
pub open spec fn was_last_chunk(before: DecoderView, after: DecoderView) -> bool {
    chunk_frames(before, after) == 0 && after.eof
}

/// The decoder went from each of the views to the next one by a chunk.
pub open spec fn read_chunks(views: Seq<DecoderView>, stride: int) -> bool {
    forall|i: int|
        0 <= i < views.len() - 1 ==> read_chunk(#[trigger] views[i], views[i + 1], stride)
}

/// None of the chunks was the last one.
pub open spec fn more_to_come(views: Seq<DecoderView>) -> bool {
    forall|i: int| 0 <= i < views.len() - 1 ==> !was_last_chunk(#[trigger] views[i], views[i + 1])
}

/// The samples that are kept of all the chunks, in order.
pub open spec fn all_chunks(views: Seq<DecoderView>, stride: int) -> Seq<u32>
    decreases views.len(),
{
    if views.len() <= 1 {
        Seq::empty()
    } else {
        all_chunks(views.drop_last(), stride) + chunk_samples(
            views[views.len() - 2],
            views.last(),
            stride,
        )
    }
}

/// Decoding a whole medium led from `before` to `after` by way of `views`: chunk by chunk, until one
/// was the last or one failed.
pub open spec fn decoded_through(
    before: DecoderView,
    after: DecoderView,
    views: Seq<DecoderView>,
    result: Result<Vec<u32>, ApiError>,
) -> bool {
    let stride = before.channels as int;
    &&& views.len() > 0
    &&& views.first() == before
    &&& read_chunks(views, stride)
    &&& match result {
        Ok(samples) => {
            &&& views.len() > 1
            &&& views.last() == after
            &&& more_to_come(views.drop_last())
            &&& was_last_chunk(views[views.len() - 2], after)
            &&& samples@ == all_chunks(views, stride)
        },
        Err(error) => {
            &&& more_to_come(views)
            &&& {
                ||| chunk_failed(views.last(), after, stride, error)
                ||| {
                    &&& after == views.last()
                    &&& all_chunks(views, stride).len() + CHUNK_FRAMES * stride > usize::MAX
                    &&& error.says(SYMPHONIA_C_INTERNAL_ERROR, "panic while decoding file"@)
                }
            }
        },
    }
}

/// Decoding a whole medium led from `before` to `after`.
pub open spec fn decoded_whole(
    before: DecoderView,
    after: DecoderView,
    result: Result<Vec<u32>, ApiError>,
) -> bool {
    if before.channels == 0 {
        after == before && (result matches Err(error) && DecoderView::no_channels(error))
    } else {
        exists|views: Seq<DecoderView>| #[trigger] decoded_through(before, after, views, result)
    }
}

/// A view more adds its chunk.
proof fn lemma_chunk_more(views: Seq<DecoderView>, next: DecoderView, stride: int)
    requires
        views.len() > 0,
        read_chunks(views, stride),
        read_chunk(views.last(), next, stride),
    ensures
        read_chunks(views.push(next), stride),
        all_chunks(views.push(next), stride) == all_chunks(views, stride) + chunk_samples(
            views.last(),
            next,
            stride,
        ),
        more_to_come(views) && !was_last_chunk(views.last(), next) ==> more_to_come(
            views.push(next),
        ),
        views.push(next).drop_last() == views,
{
    let more = views.push(next);
    assert(more.drop_last() =~= views);
    assert forall|i: int| 0 <= i < more.len() - 1 implies read_chunk(
        #[trigger] more[i],
        more[i + 1],
        stride,
    ) by {
        if i < views.len() - 1 {
            assert(read_chunk(views[i], views[i + 1], stride));
        }
    }
    if more_to_come(views) && !was_last_chunk(views.last(), next) {
        assert forall|i: int| 0 <= i < more.len() - 1 implies !was_last_chunk(
            #[trigger] more[i],
            more[i + 1],
        ) by {
            if i < views.len() - 1 {
                assert(!was_last_chunk(views[i], views[i + 1]));
            }
        }
    }
}

/// A chunk brings no more frames than it has room for, and brings some unless the medium has ended.
pub proof fn lemma_chunk_frames(before: DecoderView, after: DecoderView, stride: int)
    requires
        read_chunk(before, after, stride),
    ensures
        0 <= chunk_frames(before, after) <= CHUNK_FRAMES,
        0 <= chunk_frames(before, after) * stride <= CHUNK_FRAMES * stride,
        !after.eof ==> chunk_frames(before, after) == CHUNK_FRAMES,
        chunk_frames(before, after) > 0 ==> chunk_frames(before, after) * stride > 0,
        taken(before, after, chunk_want(before)) <= CHUNK_FRAMES * stride,
{
    let n = taken(before, after, chunk_want(before));
    let c = before.channels as int;
    let frames = n / c;
    assert(0 <= frames <= CHUNK_FRAMES && (n == CHUNK_FRAMES * c ==> frames == CHUNK_FRAMES))
        by (nonlinear_arith)
        requires
            0 <= n <= CHUNK_FRAMES * c,
            c > 0,
            frames == n / c,
    ;
    assert(0 <= frames * stride <= CHUNK_FRAMES * stride && (frames > 0 ==> frames * stride > 0))
        by (nonlinear_arith)
        requires
            0 <= frames <= CHUNK_FRAMES,
            stride > 0,
    ;
}

/// Reads the next chunk and keeps its samples.
fn append_chunk(decoder: &mut SymphoniaCDecoder, samples: &mut Vec<u32>, channels: usize) -> (result:
    Result<usize, ApiError>)
    requires
        old(decoder).wf(),
        channels > 0,
        old(samples)@.len() + CHUNK_FRAMES * channels <= usize::MAX,
    ensures
        final(decoder).wf(),
        final(decoder).comes_from(*old(decoder)),
        match result {
            Ok(frames) => {
                &&& read_chunk(old(decoder)@, final(decoder)@, channels as int)
                &&& frames == chunk_frames(old(decoder)@, final(decoder)@)
                &&& final(samples)@ == old(samples)@ + chunk_samples(
                    old(decoder)@,
                    final(decoder)@,
                    channels as int,
                )
            },
            Err(error) => chunk_failed(old(decoder)@, final(decoder)@, channels as int, error),
        },
{
    let start = samples.len();
    samples.resize(start + CHUNK_FRAMES * channels, 0);
    let (_, room) = samples.as_mut_slice().split_at_mut(start);
    assert(room@ =~= silence(CHUNK_FRAMES * channels));
    match decoder.read_f32(room, CHUNK_FRAMES) {
        Ok(frames) => {
            proof {
                assert(read_chunk(old(decoder)@, decoder@, channels as int));
                lemma_chunk_frames(old(decoder)@, decoder@, channels as int);
            }
            samples.truncate(start + frames * channels);
            assert(samples@ =~= old(samples)@ + chunk_samples(
                old(decoder)@,
                decoder@,
                channels as int,
            ));
            Ok(frames)
        },
        Err(error) => {
            assert(read_frames(
                old(decoder)@,
                decoder@,
                silence(CHUNK_FRAMES * channels),
                room@,
                CHUNK_FRAMES,
                Err(error),
            ));
            Err(error)
        },
    }
}

/// Decodes a medium from where the decoder stands to its end. Where there is no room for another
/// chunk because so many samples cannot be counted, it fails as a panic of the whole call would.
pub fn decode_all(decoder: &mut SymphoniaCDecoder) -> (result: Result<Vec<u32>, ApiError>)
    requires
        old(decoder).wf(),
    ensures
        final(decoder).wf(),
        final(decoder).comes_from(*old(decoder)),
        decoded_whole(old(decoder)@, final(decoder)@, result),
{
    let channels = match decoder.channel_count() {
        Ok(channels) => channels,
        Err(error) => {
            return Err(error);
        },
    };
    let mut samples: Vec<u32> = Vec::new();
    let ghost before = decoder@;
    let ghost stride = channels as int;
    let ghost mut views = seq![decoder@];
    loop
        invariant
            before == old(decoder)@,
            decoder.wf(),
            decoder.comes_from(*old(decoder)),
            stride == channels == before.channels,
            channels > 0,
            views.len() > 0,
            views.first() == before,
            views.last() == decoder@,
            read_chunks(views, stride),
            more_to_come(views),
            samples@ == all_chunks(views, stride),
        decreases usize::MAX - samples@.len(),
    {
        let end = match CHUNK_FRAMES.checked_mul(channels) {
            Some(room) => samples.len().checked_add(room),
            None => None,
        };
        if end.is_none() {
            let error = ApiError::new(SYMPHONIA_C_INTERNAL_ERROR, "panic while decoding file");
            assert(decoded_through(before, decoder@, views, Err(error)));
            return Err(error);
        }
        let ghost now = decoder@;
        match append_chunk(decoder, &mut samples, channels) {
            Ok(frames_read) => {
                proof {
                    lemma_chunk_frames(now, decoder@, stride);
                    lemma_chunk_more(views, decoder@, stride);
                    views = views.push(decoder@);
                }
                if frames_read == 0 && decoder.at_end() {
                    assert(decoded_through(before, decoder@, views, Ok(samples)));
                    return Ok(samples);
                }
            },
            Err(error) => {
                assert(decoded_through(before, decoder@, views, Err(error)));
                return Err(error);
            },
        }
    }
}

} // verus!
