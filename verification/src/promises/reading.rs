//! Reading an open file: which samples come, in what order, and when there are no more.

use vstd::prelude::*;
use crate::api::{read_f32_impl, symphonia_c_read_f32};
use crate::decoder::SymphoniaCDecoder;
use crate::error::{ApiError, MediaError};
use crate::media::{MediaPacket, made_with, probed_with};
use crate::message::{CMessage, message_bytes};
use crate::session::{Round, channels_after, rate_after, samples_of};

verus! {

/// A fetch goes on from packet to packet, and ends with the first one of the decoder's track that
/// decodes to audio: that audio, all of it, is what it brings, and its rate and channels are the
/// decoder's from then on. It passes over a packet only if it is of another track, is malformed, or
/// makes the codec ask for a reset. It brings nothing only where the medium has no more packets,
/// and fails only where reading or decoding failed, which it reports, or where no more packets can
/// be counted. It changes nothing else of the decoder.
pub proof fn law_a_fetch_brings_the_next_audio(
    decoder: &mut SymphoniaCDecoder,
    result: Result<Option<Vec<u32>>, ApiError>,
)
    requires
        call_ensures(SymphoniaCDecoder::decode_next_samples, (decoder,), result),
        old(decoder).wf(),
    ensures
        final(decoder).wf(),
        probed_with(final(decoder).reader()) == probed_with(old(decoder).reader()),
        made_with(final(decoder).codec()) == made_with(old(decoder).codec()),
        final(decoder)@.rounds.len() >= old(decoder)@.rounds.len(),
        final(decoder)@.rounds.take(old(decoder)@.rounds.len() as int) == old(decoder)@.rounds,
        forall|k: int|
            old(decoder)@.rounds.len() <= k < final(decoder)@.rounds.len() - 1 ==> {
                let round = #[trigger] final(decoder)@.rounds[k];
                &&& round.read matches Ok(Some(_))
                &&& match round.decoded {
                    None => true,
                    Some(Ok(_)) => false,
                    Some(Err(MediaError::DecodeError(_))) => true,
                    Some(Err(MediaError::ResetRequired)) => true,
                    Some(Err(_)) => false,
                }
            },
        match result {
            Ok(Some(samples)) => {
                let last = final(decoder)@.rounds.last();
                &&& final(decoder)@.rounds.len() > old(decoder)@.rounds.len()
                &&& last.read matches Ok(Some(_))
                &&& last.decoded matches Some(Ok(audio))
                &&& samples@ == audio.samples
                &&& final(decoder)@.sample_rate == audio.rate
                &&& final(decoder)@.channels == audio.channels as u32
            },
            Ok(None) => {
                &&& final(decoder)@.rounds.len() > old(decoder)@.rounds.len()
                &&& final(decoder)@.rounds.last().read == Ok::<Option<MediaPacket>, MediaError>(
                    None,
                )
            },
            Err(error) => {
                let last = final(decoder)@.rounds.last();
                ||| {
                    &&& final(decoder)@.rounds.len() > old(decoder)@.rounds.len()
                    &&& match (last.read, last.decoded) {
                        (Err(cause), _) => error.reports(cause),
                        (Ok(Some(_)), Some(Err(cause))) => {
                            &&& !(cause matches MediaError::DecodeError(_))
                            &&& !(cause matches MediaError::ResetRequired)
                            &&& error.reports(cause)
                        },
                        _ => false,
                    }
                }
                ||| {
                    &&& final(decoder)@.rounds.len() == u64::MAX
                    &&& error.status == -5
                    &&& error.message@ == "packet limit reached"@
                    &&& final(decoder)@.rounds.len() > old(decoder)@.rounds.len() ==> {
                        &&& last.read matches Ok(Some(_))
                        &&& !(last.decoded matches Some(Ok(_)))
                    }
                }
            },
        },
        !(result matches Ok(Some(_))) ==> final(decoder)@.sample_rate == old(decoder)@.sample_rate
            && final(decoder)@.channels == old(decoder)@.channels,
        final(decoder)@.track_id == old(decoder)@.track_id,
        final(decoder)@.total_frames == old(decoder)@.total_frames,
        final(decoder)@.held == old(decoder)@.held,
        final(decoder)@.held_taken == old(decoder)@.held_taken,
        final(decoder)@.pending == old(decoder)@.pending,
        final(decoder)@.eof == old(decoder)@.eof,
        final(decoder)@.last_error == old(decoder)@.last_error,
{
    let before = old(decoder)@;
    let after = final(decoder)@;
    let new = after.rounds.skip(before.rounds.len() as int);
    assert(after.rounds == before.rounds + new);
    assert(after.rounds.take(before.rounds.len() as int) =~= before.rounds);
    assert forall|k: int| before.rounds.len() <= k < after.rounds.len() - 1 implies {
        let round = #[trigger] after.rounds[k];
        &&& round.read matches Ok(Some(_))
        &&& match round.decoded {
            None => true,
            Some(Ok(_)) => false,
            Some(Err(MediaError::DecodeError(_))) => true,
            Some(Err(MediaError::ResetRequired)) => true,
            Some(Err(_)) => false,
        }
    } by {
        assert(after.rounds[k] == new[k - before.rounds.len()]);
    }
    if new.len() > 0 {
        assert(after.rounds.last() == new.last());
        let rest = new.drop_last();
        assert forall|j: int| 0 <= j < rest.len() implies !((#[trigger] rest[j]).verdict() is Play) by {
            assert(rest[j] == new[j]);
        }
        crate::session::lemma_silent_rounds(before.sample_rate, before.channels, rest);
    }
}

/// Pending samples are moved out in order, as many as there are and fit, and nothing else of the
/// decoder changes.
pub proof fn law_pending_samples_come_out_in_order(
    decoder: &mut SymphoniaCDecoder,
    out: &mut [u32],
    count: usize,
)
    requires
        call_ensures(SymphoniaCDecoder::drain_pending, (decoder, out), count),
        old(decoder).wf(),
    ensures
        final(decoder).wf(),
        old(decoder)@.pending.len() <= old(out)@.len() ==> count == old(decoder)@.pending.len(),
        old(decoder)@.pending.len() > old(out)@.len() ==> count == old(out)@.len(),
        final(out)@.len() == old(out)@.len(),
        forall|i: int|
            0 <= i < old(out)@.len() ==> #[trigger] final(out)@[i] == if i < count {
                old(decoder)@.pending[i]
            } else {
                old(out)@[i]
            },
        final(decoder)@.pending == old(decoder)@.pending.skip(count as int),
        final(decoder)@.rounds == old(decoder)@.rounds,
        final(decoder)@.track_id == old(decoder)@.track_id,
        final(decoder)@.sample_rate == old(decoder)@.sample_rate,
        final(decoder)@.channels == old(decoder)@.channels,
        final(decoder)@.total_frames == old(decoder)@.total_frames,
        final(decoder)@.eof == old(decoder)@.eof,
        final(decoder)@.last_error == old(decoder)@.last_error,
        final(decoder).reader() == old(decoder).reader(),
        final(decoder).codec() == old(decoder).codec(),
        count == 0 ==> *final(decoder) == *old(decoder),
        0 < count < old(decoder)@.pending.len() ==> final(decoder)@.held == old(decoder)@.held
            && final(decoder)@.held_taken == old(decoder)@.held_taken + count,
        count > 0 && count == old(decoder)@.pending.len() ==> final(decoder)@.held.len() == 0
            && final(decoder)@.held_taken == 0,
{
}

/// A read that asks for no frames, or that cannot be served, changes neither the decoder nor the
/// buffer, and answers why.
pub proof fn law_refused_reads_change_nothing(
    decoder: &mut SymphoniaCDecoder,
    out: &mut [u32],
    frame_capacity: usize,
    result: Result<usize, ApiError>,
)
    requires
        call_ensures(SymphoniaCDecoder::read_f32, (decoder, out, frame_capacity), result),
        old(decoder).wf(),
        frame_capacity == 0 || old(decoder)@.channels == 0 || frame_capacity * old(
            decoder,
        )@.channels > usize::MAX || old(out)@.len() < frame_capacity * old(decoder)@.channels,
    ensures
        *final(decoder) == *old(decoder),
        final(out)@ == old(out)@,
        if frame_capacity == 0 {
            result == Ok::<usize, ApiError>(0)
        } else if old(decoder)@.channels == 0 {
            result matches Err(error) && error.status == -4 && error.message@
                == "audio channel count is unknown"@
        } else if frame_capacity * old(decoder)@.channels > usize::MAX {
            result matches Err(error) && error.status == -1 && error.message@
                == "frame capacity overflows sample count"@
        } else {
            result matches Err(error) && error.status == -1 && error.message@
                == "output buffer is too small"@
        },
{
}

/// A read of frames takes samples in the order in which they were decoded: first those that were
/// pending, then those of all audio that it decodes. It takes as many as were asked for, or all
/// that there are to the end of the medium or to a failure; what it takes is at the front of the
/// buffer, the rest of the buffer is untouched, and what it does not take stays pending. It decodes
/// only while there are too few samples, and nothing once the medium has ended. The number of
/// frames that it answers is that of the samples taken, by the channels there were before. It fails
/// only where reading or decoding failed, which it reports, or where no more packets can be
/// counted.
#[verifier::rlimit(30)]
pub proof fn law_a_read_takes_samples_in_order(
    decoder: &mut SymphoniaCDecoder,
    out: &mut [u32],
    frame_capacity: usize,
    result: Result<usize, ApiError>,
    want: int,
    new: Seq<Round>,
    all: Seq<u32>,
    n: int,
)
    requires
        call_ensures(SymphoniaCDecoder::read_f32, (decoder, out, frame_capacity), result),
        old(decoder).wf(),
        frame_capacity > 0,
        old(decoder)@.channels > 0,
        want == frame_capacity * old(decoder)@.channels,
        want <= old(out)@.len() <= usize::MAX,
        new == final(decoder)@.rounds.skip(old(decoder)@.rounds.len() as int),
        all == old(decoder)@.pending + samples_of(new),
        n == if all.len() < want {
            all.len() as int
        } else {
            want
        },
    ensures
        final(decoder).wf(),
        probed_with(final(decoder).reader()) == probed_with(old(decoder).reader()),
        made_with(final(decoder).codec()) == made_with(old(decoder).codec()),
        final(decoder)@.rounds == old(decoder)@.rounds + new,
        final(out)@.len() == old(out)@.len(),
        forall|i: int|
            0 <= i < old(out)@.len() ==> #[trigger] final(out)@[i] == if i < n {
                all[i]
            } else {
                old(out)@[i]
            },
        final(decoder)@.pending == all.skip(n),
        n < want && result is Ok ==> final(decoder)@.eof,
        final(decoder)@.eof ==> final(decoder)@.pending.len() == 0,
        forall|k: int|
            0 <= k < new.len() ==> !old(decoder)@.eof && old(decoder)@.pending.len() + samples_of(
                #[trigger] new.take(k),
            ).len() < want,
        forall|k: int| 0 <= k < new.len() - 1 ==> (#[trigger] new[k]).goes_on(),
        final(decoder)@.eof <==> old(decoder)@.eof || (new.len() > 0 && new.last().read == Ok::<
            Option<MediaPacket>,
            MediaError,
        >(None)),
        match result {
            Ok(frames) => frames == n / old(decoder)@.channels as int && (new.len() > 0
                ==> new.last().goes_on() || new.last().read == Ok::<
                Option<MediaPacket>,
                MediaError,
            >(None)),
            Err(error) => {
                ||| new.len() > 0 && match (new.last().read, new.last().decoded) {
                    (Err(cause), _) => error.reports(cause),
                    (Ok(Some(_)), Some(Err(cause))) => {
                        &&& !(cause matches MediaError::DecodeError(_))
                        &&& !(cause matches MediaError::ResetRequired)
                        &&& error.reports(cause)
                    },
                    _ => false,
                }
                ||| {
                    &&& final(decoder)@.rounds.len() == u64::MAX
                    &&& error.status == -5
                    &&& error.message@ == "packet limit reached"@
                    &&& n < want
                    &&& !final(decoder)@.eof
                }
            },
        },
        final(decoder)@.sample_rate == rate_after(old(decoder)@.sample_rate, new),
        final(decoder)@.channels == channels_after(old(decoder)@.channels, new),
        final(decoder)@.track_id == old(decoder)@.track_id,
        final(decoder)@.total_frames == old(decoder)@.total_frames,
        final(decoder)@.last_error == old(decoder)@.last_error,
{
    crate::decoder::law_pending_is_tidy(*final(decoder));
}

/// A call of the C interface that reads frames gives what a read gives: the samples of the file in
/// order at the front of the caller's buffer, the number of frames, and status 0, or status 1 where
/// no frame came because the file has ended. A failure gives no frames, its own status, and its
/// message in the decoder. The message that belongs to no decoder is untouched.
#[verifier::rlimit(60)]
pub proof fn law_c_reads_take_samples_in_order(
    decoder: &mut SymphoniaCDecoder,
    out: &mut [u32],
    frame_capacity: usize,
    frames: &mut usize,
    global: &mut CMessage,
    status: i32,
    want: int,
    new: Seq<Round>,
    all: Seq<u32>,
    n: int,
)
    requires
        call_ensures(
            symphonia_c_read_f32,
            (Some(decoder), Some(out), frame_capacity, Some(frames), global),
            status,
        ),
        old(decoder).wf(),
        frame_capacity > 0,
        old(decoder)@.channels > 0,
        want == frame_capacity * old(decoder)@.channels,
        want <= old(out)@.len() <= usize::MAX,
        new == final(decoder)@.rounds.skip(old(decoder)@.rounds.len() as int),
        all == old(decoder)@.pending + samples_of(new),
        n == if all.len() < want {
            all.len() as int
        } else {
            want
        },
    ensures
        final(decoder).wf(),
        probed_with(final(decoder).reader()) == probed_with(old(decoder).reader()),
        made_with(final(decoder).codec()) == made_with(old(decoder).codec()),
        final(decoder)@.rounds == old(decoder)@.rounds + new,
        final(out)@.len() == old(out)@.len(),
        forall|i: int|
            0 <= i < old(out)@.len() ==> #[trigger] final(out)@[i] == if i < n {
                all[i]
            } else {
                old(out)@[i]
            },
        final(decoder)@.pending == all.skip(n),
        n < want && status >= 0 ==> final(decoder)@.eof,
        forall|k: int|
            0 <= k < new.len() ==> !old(decoder)@.eof && old(decoder)@.pending.len() + samples_of(
                #[trigger] new.take(k),
            ).len() < want,
        forall|k: int| 0 <= k < new.len() - 1 ==> (#[trigger] new[k]).goes_on(),
        final(decoder)@.eof <==> old(decoder)@.eof || (new.len() > 0 && new.last().read == Ok::<
            Option<MediaPacket>,
            MediaError,
        >(None)),
        final(global)@ == old(global)@,
        status >= 0 ==> {
            &&& *final(frames) == n / old(decoder)@.channels as int
            &&& status == if *final(frames) == 0 && final(decoder)@.eof {
                1int
            } else {
                0
            }
            &&& final(decoder)@.last_error.len() == 0
        },
        status < 0 ==> {
            &&& *final(frames) == 0
            &&& exists|error: ApiError|
                {
                    &&& #[trigger] message_bytes(error.message@) == final(decoder)@.last_error
                    &&& error.status == status
                    &&& {
                        ||| new.len() > 0 && match (new.last().read, new.last().decoded) {
                            (Err(cause), _) => error.reports(cause),
                            (Ok(Some(_)), Some(Err(cause))) => {
                                &&& !(cause matches MediaError::DecodeError(_))
                                &&& !(cause matches MediaError::ResetRequired)
                                &&& error.reports(cause)
                            },
                            _ => false,
                        }
                        ||| {
                            &&& final(decoder)@.rounds.len() == u64::MAX
                            &&& error.status == -5
                            &&& error.message@ == "packet limit reached"@
                            &&& n < want
                            &&& !final(decoder)@.eof
                        }
                    }
                }
        },
        final(decoder)@.sample_rate == rate_after(old(decoder)@.sample_rate, new),
        final(decoder)@.channels == channels_after(old(decoder)@.channels, new),
        final(decoder)@.track_id == old(decoder)@.track_id,
        final(decoder)@.total_frames == old(decoder)@.total_frames,
{
}

/// A call of the C interface that asks for no frames, or that cannot be served, takes nothing. It
/// answers why: in the decoder where there is one, and otherwise in the message that belongs to no
/// decoder. A call without a place for the number of frames does not even clear the decoder's last
/// message before it puts its own.
pub proof fn law_c_reads_that_are_refused(
    decoder: Option<&mut SymphoniaCDecoder>,
    out: Option<&mut [u32]>,
    frame_capacity: usize,
    frames: Option<&mut usize>,
    global: &mut CMessage,
    status: i32,
)
    requires
        call_ensures(
            symphonia_c_read_f32,
            (decoder, out, frame_capacity, frames, global),
            status,
        ),
        decoder matches Some(d) ==> d.wf(),
        frames is None || frame_capacity == 0 || match decoder {
            None => true,
            Some(d) => (*d)@.channels == 0 || frame_capacity * (*d)@.channels > usize::MAX
                || match out {
                None => true,
                Some(o) => (*o)@.len() < frame_capacity * (*d)@.channels,
            },
        },
    ensures
        frames matches Some(f) ==> *final(f) == 0,
        out matches Some(o) ==> final(o)@ == (*o)@,
        decoder matches Some(d) ==> {
            &&& final(d).wf()
            &&& final(d)@.rounds == (*d)@.rounds
            &&& final(d)@.track_id == (*d)@.track_id
            &&& final(d)@.sample_rate == (*d)@.sample_rate
            &&& final(d)@.channels == (*d)@.channels
            &&& final(d)@.total_frames == (*d)@.total_frames
            &&& final(d)@.held == (*d)@.held
            &&& final(d)@.held_taken == (*d)@.held_taken
            &&& final(d)@.pending == (*d)@.pending
            &&& final(d)@.eof == (*d)@.eof
            &&& final(d).reader() == d.reader()
            &&& final(d).codec() == d.codec()
            &&& final(global)@ == old(global)@
        },
        match (frames, decoder) {
            (None, Some(d)) => status == -1 && final(d)@.last_error == message_bytes(
                "out_frames must not be null"@,
            ),
            (None, None) => status == -1 && final(global)@ == message_bytes(
                "out_frames must not be null"@,
            ),
            (Some(_), None) => status == -1 && final(global)@ == message_bytes(
                "decoder must not be null"@,
            ),
            (Some(_), Some(d)) => if frame_capacity == 0 {
                status == 0 && final(d)@.last_error.len() == 0
            } else if (*d)@.channels == 0 {
                status == -4 && final(d)@.last_error == message_bytes(
                    "audio channel count is unknown"@,
                )
            } else if frame_capacity * (*d)@.channels > usize::MAX {
                status == -1 && final(d)@.last_error == message_bytes(
                    "frame capacity overflows sample count"@,
                )
            } else if out is None {
                status == -1 && final(d)@.last_error == message_bytes(
                    "out_samples must not be null"@,
                )
            } else {
                status == -1 && final(d)@.last_error == message_bytes("output buffer is too small"@)
            },
        },
{
}

/// The function behind a read of the C interface gives what the decoder's own read gives, on a
/// decoder whose last message was cleared, and tells the end of the file by status 1.
#[verifier::rlimit(60)]
pub proof fn law_read_f32_impl(
    decoder: &mut SymphoniaCDecoder,
    out: &mut [u32],
    frame_capacity: usize,
    frames: &mut usize,
    result: Result<i32, ApiError>,
    want: int,
    new: Seq<Round>,
    all: Seq<u32>,
    n: int,
)
    requires
        call_ensures(
            read_f32_impl,
            (Some(decoder), Some(out), frame_capacity, Some(frames)),
            result,
        ),
        old(decoder).wf(),
        frame_capacity > 0,
        old(decoder)@.channels > 0,
        want == frame_capacity * old(decoder)@.channels,
        want <= old(out)@.len() <= usize::MAX,
        new == final(decoder)@.rounds.skip(old(decoder)@.rounds.len() as int),
        all == old(decoder)@.pending + samples_of(new),
        n == if all.len() < want {
            all.len() as int
        } else {
            want
        },
    ensures
        final(decoder).wf(),
        final(decoder)@.rounds == old(decoder)@.rounds + new,
        final(out)@.len() == old(out)@.len(),
        forall|i: int|
            0 <= i < old(out)@.len() ==> #[trigger] final(out)@[i] == if i < n {
                all[i]
            } else {
                old(out)@[i]
            },
        final(decoder)@.pending == all.skip(n),
        final(decoder)@.last_error.len() == 0,
        match result {
            Ok(status) => {
                &&& *final(frames) == n / old(decoder)@.channels as int
                &&& status == if *final(frames) == 0 && final(decoder)@.eof {
                    1int
                } else {
                    0
                }
                &&& n < want ==> final(decoder)@.eof
            },
            Err(_) => *final(frames) == 0 && new.len() > 0 || final(decoder)@.rounds.len()
                == u64::MAX,
        },
{
}

} // verus!
