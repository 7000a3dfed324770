//! Decoding a whole file: that all its samples come, and what the buffer says of them.

use vstd::prelude::*;
use vstd::utf8::valid_utf8;
use crate::agreement::lemma_decoding_took;
use crate::api::{
    decode_call_on, decode_course, decode_file_f32_impl, decodes, opens, reported,
    symphonia_c_decode_file_f32,
};
use crate::buffer::{
    CHUNK_FRAMES, SymphoniaCAudioBuffer, all_chunks, chunk_failed, chunk_samples, decode_all,
    decoded_through, lemma_chunk_frames, read_chunk, silence,
};
use crate::decoder::{
    DecoderView, SymphoniaCDecoder, fresh, law_rounds_are_the_record, read_frames, supply, taken,
};
use crate::error::{ApiError, MediaError};
use crate::laws::{
    law_buffer_counts_its_samples, law_no_sample_is_dropped, lemma_chunks_stand, lemma_floor,
    lemma_view_is_steady, steady,
};
use crate::media::{MediaPacket, MediaStream, made_with, probed_with};
use crate::message::{CMessage, message_bytes};
use crate::session::{
    Round, Verdict, ended, failed, lemma_samples_of_concat, rate_after, samples_of,
};

verus! {

/// All audio of the rounds has this many channels.
pub open spec fn one_channel_count(rounds: Seq<Round>, channels: u32) -> bool {
    forall|k: int|
        0 <= k < rounds.len() ==> ((#[trigger] rounds[k]).decoded matches Some(Ok(audio))
            ==> audio.channels == channels)
}

/// The samples that a chunk keeps of what there was to take: as many frames as the chunk took, each
/// with room for `stride` samples, the samples that were taken at the front, in order, and zeros
/// behind them.
pub proof fn law_a_chunk_keeps_what_it_took(
    before: DecoderView,
    after: DecoderView,
    stride: int,
    all: Seq<u32>,
    n: int,
)
    requires
        read_chunk(before, after, stride),
        all == before.pending + samples_of(after.rounds.skip(before.rounds.len() as int)),
        n == if all.len() < 4096 * before.channels {
            all.len() as int
        } else {
            4096 * before.channels
        },
    ensures
        0 < before.channels <= stride,
        after.rounds.take(before.rounds.len() as int) == before.rounds,
        after.pending == all.skip(n),
        n == 4096 * before.channels || after.eof,
        chunk_samples(before, after, stride).len() == n / before.channels as int * stride,
        forall|i: int|
            0 <= i < chunk_samples(before, after, stride).len() ==> #[trigger] chunk_samples(
                before,
                after,
                stride,
            )[i] == if i < n {
                all[i]
            } else {
                0
            },
{
    lemma_chunk_frames(before, after, stride);
    assert(after.rounds.take(before.rounds.len() as int) =~= before.rounds);
}

/// A list of chunks keeps what its chunks keep, in order.
pub proof fn law_chunks_add_up(views: Seq<DecoderView>, next: DecoderView, stride: int)
    requires
        views.len() > 0,
    ensures
        all_chunks(seq![next], stride).len() == 0,
        all_chunks(views.push(next), stride) == all_chunks(views, stride) + chunk_samples(
            views.last(),
            next,
            stride,
        ),
{
    assert(views.push(next).drop_last() =~= views);
}

/// Decoding a whole medium goes from chunk to chunk, each into room for frames of as many samples
/// as there were channels at first, until one brings no frame because the medium has ended. What it
/// brings are the samples that the chunks keep. It fails only where a chunk fails, and with what
/// that failed with, or where so many samples cannot be counted.
pub proof fn law_a_medium_is_decoded_chunk_by_chunk(
    before: DecoderView,
    after: DecoderView,
    views: Seq<DecoderView>,
    result: Result<Vec<u32>, ApiError>,
)
    requires
        decoded_through(before, after, views, result),
    ensures
        views.len() > 0,
        views[0] == before,
        forall|i: int|
            0 <= i < views.len() - 1 ==> read_chunk(
                #[trigger] views[i],
                views[i + 1],
                before.channels as int,
            ),
        result matches Ok(samples) ==> {
            &&& views.len() > 1
            &&& views.last() == after
            &&& after.eof
            &&& samples@ == all_chunks(views, before.channels as int)
        },
        result matches Err(error) ==> {
            ||| exists|out: Seq<u32>| #[trigger]
                read_frames(
                    views.last(),
                    after,
                    silence(4096 * before.channels),
                    out,
                    4096,
                    Err(error),
                )
            ||| {
                &&& after == views.last()
                &&& all_chunks(views, before.channels as int).len() + 4096 * before.channels
                    > usize::MAX
                &&& error.status == -6
                &&& error.message@ == "panic while decoding file"@
            }
        },
{
}

/// Silence is zeros.
pub proof fn law_silence(count: nat)
    ensures
        silence(count as int).len() == count,
        forall|i: int| 0 <= i < count ==> #[trigger] silence(count as int)[i] == 0,
{
}

/// The function that decodes a whole medium decodes it chunk by chunk, from where the decoder
/// stands, unless the number of channels is not known.
pub proof fn law_decode_all(decoder: &mut SymphoniaCDecoder, result: Result<Vec<u32>, ApiError>)
    requires
        call_ensures(decode_all, (decoder,), result),
        old(decoder).wf(),
    ensures
        final(decoder).wf(),
        probed_with(final(decoder).reader()) == probed_with(old(decoder).reader()),
        made_with(final(decoder).codec()) == made_with(old(decoder).codec()),
        old(decoder)@.channels == 0 ==> final(decoder)@ == old(decoder)@ && (
        result matches Err(error) && error.status == -4 && error.message@
            == "audio channel count is unknown"@),
        old(decoder)@.channels > 0 ==> exists|views: Seq<DecoderView>| #[trigger]
            decoded_through(old(decoder)@, final(decoder)@, views, result),
{
}

/// A failure of a steady decoding is that of its last round, or comes of the limit on packets.
#[verifier::spinoff_prover]
#[verifier::rlimit(30)]
proof fn lemma_steady_failure(
    first: DecoderView,
    last: DecoderView,
    views: Seq<DecoderView>,
    error: ApiError,
)
    requires
        first.channels > 0,
        first.pending.len() == 0,
        first.rounds.len() == 0,
        !first.eof,
        decoded_through(first, last, views, Err(error)),
        steady(last.rounds, first.channels),
        samples_of(last.rounds).len() + CHUNK_FRAMES * first.channels <= usize::MAX,
    ensures
        (failed(last.rounds) && (last.rounds.last().verdict() matches Verdict::Fail(cause)
            && error.reports(cause))) || (last.rounds.len() == u64::MAX && !last.eof
            && error.status == -5 && error.message@ == "packet limit reached"@),
{
    let c = first.channels;
    let whole = Err::<Vec<u32>, ApiError>(error);
    lemma_decoding_took(first, last, views, whole);
    let got = last.rounds;
    assert(last.rounds_since(first) =~= got);
    let end = views.last();
    let kept = end.rounds;
    assert(end.rounds_since(first) =~= kept);
    assert(kept =~= got.take(kept.len() as int));
    assert forall|k: int| 0 <= k < kept.len() implies ((
    #[trigger] kept[k]).verdict() matches Verdict::Play(audio) ==> audio.channels == c) by {
        assert(kept[k] == got[k]);
    }
    assert forall|i: int| 0 <= i < views.len() implies (#[trigger] views[i]).channels == c by {
        lemma_view_is_steady(views, i, c);
    }
    lemma_chunks_stand(views, c as int);
    let rest = got.skip(kept.len() as int);
    assert(got =~= kept + rest);
    lemma_samples_of_concat(kept, rest);
    let held = all_chunks(views, c as int);
    let all = supply(first, end);
    assert(all =~= samples_of(kept));
    lemma_floor(0, all.len() as int, c as int);
    assert(held.len() <= all.len());
    assert(chunk_failed(end, last, c as int, error));
    let out = choose|out: Seq<u32>| #[trigger]
        read_frames(
            end,
            last,
            silence(CHUNK_FRAMES * c as int),
            out,
            CHUNK_FRAMES,
            Err::<usize, ApiError>(error),
        );
    let new = last.rounds_since(end);
    if failed(new) {
        assert(got.last() == new.last());
    }
}

/// The course of decoding a file that was opened, through the C interface. The file is read from
/// its start by the decoder that it was opened with. Where its number of channels is not known
/// nothing is read, and the answer is -4. A success gives no message, and the buffer then holds as
/// many samples as its frames have channels, says the number of channels of the file, and the
/// sample rate of its last audio; the file was read to its end, and nothing failed on the way. Any
/// other answer leaves the buffer empty.
///
/// Where all audio of the file has one number of channels, and its samples and one more chunk can
/// be counted, the answer is success if and only if the file was read to its end. The buffer then
/// holds the samples of all audio that was decoded, in order, none left out and none added.
/// Otherwise the answer reports the error that ended the reading, or that no more packets can be
/// counted.
#[verifier::spinoff_prover]
#[verifier::rlimit(60)]
pub proof fn law_a_file_is_decoded_whole<F: FnOnce(&str) -> Result<MediaStream, std::io::Error>>(
    path: Option<&[u8]>,
    open: F,
    first: SymphoniaCDecoder,
    last: SymphoniaCDecoder,
    buffer: SymphoniaCAudioBuffer,
    message: Seq<u8>,
    status: i32,
)
    requires
        decode_course(path, open, first, last, buffer, message, status),
    ensures
        opens(path, open, Ok(first)),
        first.wf(),
        first@.rounds.len() == 0,
        first@.pending.len() == 0,
        !first@.eof,
        last.wf(),
        probed_with(last.reader()) == probed_with(first.reader()),
        made_with(last.codec()) == made_with(first.codec()),
        last@.track_id == first@.track_id,
        last@.total_frames == first@.total_frames,
        first@.channels == 0 ==> {
            &&& status == -4
            &&& message == message_bytes("audio channel count is unknown"@)
            &&& last@.rounds.len() == 0
        },
        status == 0 ==> {
            &&& message.len() == 0
            &&& buffer.sample_count == buffer.samples@.len()
            &&& buffer.sample_count == buffer.frames * buffer.channels
            &&& buffer.channels == first@.channels
            &&& buffer.sample_rate == rate_after(first@.sample_rate, last@.rounds)
            &&& last@.rounds.len() > 0
            &&& last@.rounds.last().read == Ok::<Option<MediaPacket>, MediaError>(None)
        },
        status != 0 ==> {
            &&& buffer.samples@.len() == 0
            &&& buffer.sample_count == 0
            &&& buffer.frames == 0
            &&& buffer.channels == 0
            &&& buffer.sample_rate == 0
        },
        first@.channels > 0 ==> forall|k: int|
            0 <= k < last@.rounds.len() - 1 ==> (#[trigger] last@.rounds[k]).goes_on(),
        first@.channels > 0 && one_channel_count(last@.rounds, first@.channels) && samples_of(
            last@.rounds,
        ).len() + 4096 * first@.channels <= usize::MAX ==> {
            &&& status == 0 <==> last@.rounds.len() > 0 && last@.rounds.last().read == Ok::<
                Option<MediaPacket>,
                MediaError,
            >(None)
            &&& status == 0 ==> buffer.samples@ == samples_of(last@.rounds)
            &&& status != 0 ==> exists|error: ApiError|
                {
                    &&& #[trigger] message_bytes(error.message@) == message
                    &&& error.status == status
                    &&& {
                        ||| last@.rounds.len() > 0 && match (
                            last@.rounds.last().read,
                            last@.rounds.last().decoded,
                        ) {
                            (Err(cause), _) => error.reports(cause),
                            (Ok(Some(_)), Some(Err(cause))) => {
                                &&& !(cause matches MediaError::DecodeError(_))
                                &&& !(cause matches MediaError::ResetRequired)
                                &&& error.reports(cause)
                            },
                            _ => false,
                        }
                        ||| {
                            &&& last@.rounds.len() == u64::MAX
                            &&& error.status == -5
                            &&& error.message@ == "packet limit reached"@
                        }
                    }
                }
        },
{
    assert(opens(path, open, Ok(first)));
    let extension = choose|extension: Option<Seq<char>>| #[trigger] fresh(first, extension);
    assert(fresh(first, extension));
    let (whole, result) = choose|whole: Result<Vec<u32>, ApiError>, result: Result<(), ApiError>|
        {
            &&& #[trigger] decode_call_on(first, last, whole, buffer, result)
            &&& reported(Some(result), "panic while decoding file"@, Seq::empty(), message, status)
        };
    law_rounds_are_the_record(last);
    if first@.channels > 0 {
        let views = choose|views: Seq<DecoderView>| #[trigger]
            decoded_through(first@, last@, views, whole);
        assert(decoded_through(first@, last@, views, whole));
        lemma_decoding_took(first@, last@, views, whole);
        assert(last@.rounds_since(first@) =~= last@.rounds);
        let countable = samples_of(last@.rounds).len() + 4096 * first@.channels <= usize::MAX;
        if one_channel_count(last@.rounds, first@.channels) {
            assert forall|k: int| 0 <= k < last@.rounds.len() implies ((
            #[trigger] last@.rounds[k]).verdict() matches Verdict::Play(audio) ==> audio.channels
                == first@.channels) by {
                assert(last@.rounds[k].decoded matches Some(Ok(audio)) ==> audio.channels
                    == first@.channels);
            }
        }
        match whole {
            Ok(samples) => {
                assert(status == 0);
                law_buffer_counts_its_samples(first@, last@, views, samples, buffer);
                if one_channel_count(last@.rounds, first@.channels) {
                    law_no_sample_is_dropped(first@, last@, views, samples);
                }
            },
            Err(error) => {
                assert(result == Err::<(), ApiError>(error));
                if one_channel_count(last@.rounds, first@.channels) && countable {
                    lemma_steady_failure(first@, last@, views, error);
                    assert(message_bytes(error.message@) == message);
                }
                lemma_failures_are_negative(first@, last@, views, error);
            },
        }
    }
}

/// Whatever a decoding fails with, its status is negative.
proof fn lemma_failures_are_negative(
    first: DecoderView,
    last: DecoderView,
    views: Seq<DecoderView>,
    error: ApiError,
)
    requires
        decoded_through(first, last, views, Err(error)),
    ensures
        error.status < 0,
{
}

/// A call of the C interface that decodes a file. Missing arguments and a path that is no text are
/// refused by -1 and a message that says which. A file that does not open is answered by the status
/// and the message of that failure, and leaves the buffer empty. A file that opens is decoded
/// whole.
pub proof fn law_c_decode_file<F: FnOnce(&str) -> Result<MediaStream, std::io::Error>>(
    path: Option<&[u8]>,
    slot: Option<&mut SymphoniaCAudioBuffer>,
    message: &mut CMessage,
    open: F,
    status: i32,
)
    requires
        call_ensures(symphonia_c_decode_file_f32::<F>, (path, slot, message, open), status),
    ensures
        match slot {
            None => status == -1 && final(message)@ == message_bytes(
                "out_buffer must not be null"@,
            ),
            Some(buffer) => {
                ||| {
                    &&& final(buffer).samples@.len() == 0
                    &&& final(buffer).sample_count == 0
                    &&& final(buffer).frames == 0
                    &&& final(buffer).channels == 0
                    &&& final(buffer).sample_rate == 0
                    &&& match path {
                        None => status == -1 && final(message)@ == message_bytes(
                            "path must not be null"@,
                        ),
                        Some(bytes) => if !valid_utf8(bytes@) {
                            status == -1 && final(message)@ == message_bytes(
                                "path must be valid UTF-8"@,
                            )
                        } else {
                            exists|error: ApiError|
                                {
                                    &&& #[trigger] opens(path, open, Err(error))
                                    &&& status == error.status
                                    &&& final(message)@ == message_bytes(error.message@)
                                }
                        },
                    }
                }
                ||| {
                    &&& path matches Some(bytes) && valid_utf8(bytes@)
                    &&& exists|first: SymphoniaCDecoder, last: SymphoniaCDecoder| #[trigger]
                        decode_course(
                            path,
                            open,
                            first,
                            last,
                            *final(buffer),
                            final(message)@,
                            status,
                        )
                }
            },
        },
{
}

/// The function behind it, which leaves the message of a failure to its caller.
pub proof fn law_decode_file_impl<F: FnOnce(&str) -> Result<MediaStream, std::io::Error>>(
    path: Option<&[u8]>,
    slot: Option<&mut SymphoniaCAudioBuffer>,
    message: &mut CMessage,
    open: F,
    result: Result<(), ApiError>,
)
    requires
        call_ensures(decode_file_f32_impl::<F>, (path, slot, message, open), result),
    ensures
        result is Ok ==> final(message)@.len() == 0,
        result is Err ==> final(message)@ == old(message)@,
        slot is None ==> (result matches Err(error) && error.status == -1 && error.message@
            == "out_buffer must not be null"@),
        slot matches Some(buffer) ==> {
            &&& path is None ==> (result matches Err(error) && error.status == -1 && error.message@
                == "path must not be null"@)
            &&& path is Some && !valid_utf8(path->0@) ==> (result matches Err(error)
                && error.status == -1 && error.message@ == "path must be valid UTF-8"@)
            &&& result is Ok ==> exists|
                first: SymphoniaCDecoder,
                last: SymphoniaCDecoder,
                whole: Result<Vec<u32>, ApiError>,
            |
                opens(path, open, Ok(first)) && #[trigger] decode_call_on(
                    first,
                    last,
                    whole,
                    *final(buffer),
                    result,
                )
            &&& result is Err ==> {
                &&& final(buffer).samples@.len() == 0
                &&& final(buffer).sample_count == 0
                &&& final(buffer).frames == 0
                &&& final(buffer).channels == 0
                &&& final(buffer).sample_rate == 0
            }
        },
{
}

} // verus!
