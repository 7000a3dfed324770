//! The decoder of one medium: it reads packets, decodes those of its track, and keeps the samples
//! that have not been taken yet.

use vstd::prelude::*;
use crate::error::{ApiError, MediaError};
use crate::media::{
    AudioParameters, Codec, CodecStep, FormatHint, MediaStream, MediaTrack, PacketReader, Read,
    TrackParameters, audio_track, channel_count, codec_steps, codes_to, decode_packet,
    default_track, hint_extension, made_with, make_codec, next_packet, outcome_view, probe_medium,
    probed_with, probes_to, reads, reset,
};
use crate::message::{CMessage, c_string, message_bytes};
use crate::path::{format_hint, is_extension_of};
use crate::session::{
    Judgement, Round, Verdict, channels_after, ended, failed, judge, lemma_format_after_concat,
    lemma_samples_of_concat, lemma_silent_rounds, lemma_steps_of_push, only_last_stops, rate_after,
    reads_of, samples_of, steps_of,
};
use crate::status::{
    SYMPHONIA_C_INVALID_ARGUMENT, SYMPHONIA_C_LIMIT_ERROR, SYMPHONIA_C_UNSUPPORTED,
};

verus! {

/// An open medium.
pub struct SymphoniaCDecoder {
    format: PacketReader,
    decoder: Codec,
    track_id: u32,
    sample_rate: u32,
    channels: u32,
    total_frames: u64,
    pending: Vec<u32>,
    pending_offset: usize,
    eof: bool,
    last_error: CMessage,
    packets_read: u64,
    rounds: Ghost<Seq<Round>>,
}

/// What a decoder is to its callers.
pub struct DecoderView {
    /// All that came of reading the medium so far.
    pub rounds: Seq<Round>,
    /// The track that is decoded.
    pub track_id: u32,
    /// The sample rate of the audio, as far as it is known yet.
    pub sample_rate: u32,
    /// The number of channels of the audio, as far as it is known yet.
    pub channels: u32,
    /// The length of the track in frames, or 0 where the medium does not say.
    pub total_frames: u64,
    /// The samples of the last packet, as long as not all of them have been taken.
    pub held: Seq<u32>,
    /// How many of these have been taken.
    pub held_taken: int,
    /// The samples that were decoded and not taken yet: the rest of those that are held.
    pub pending: Seq<u32>,
    /// The medium has ended.
    pub eof: bool,
    /// The message of the last failure.
    pub last_error: Seq<u8>,
}

impl View for SymphoniaCDecoder {
    type V = DecoderView;

    closed spec fn view(&self) -> DecoderView {
        DecoderView {
            rounds: self.rounds@,
            track_id: self.track_id,
            sample_rate: self.sample_rate,
            channels: self.channels,
            total_frames: self.total_frames,
            held: self.pending@,
            held_taken: self.pending_offset as int,
            pending: self.pending@.skip(self.pending_offset as int),
            eof: self.eof,
            last_error: self.last_error@,
        }
    }
}

/// The smaller of two lengths.
pub open spec fn least(a: int, b: int) -> int {
    if a <= b {
        a
    } else {
        b
    }
}

impl DecoderView {
    /// No packet can be counted any more.
    pub open spec fn exhausted(self) -> bool {
        self.rounds.len() == u64::MAX
    }

    /// The rounds that came after `before`.
    pub open spec fn rounds_since(self, before: DecoderView) -> Seq<Round> {
        self.rounds.skip(before.rounds.len() as int)
    }

    /// Nothing but rounds and what they say of the audio was added since `before`.
    pub open spec fn reads_on_from(self, before: DecoderView) -> bool {
        let new = self.rounds_since(before);
        &&& self.rounds == before.rounds + new
        &&& self.track_id == before.track_id
        &&& self.sample_rate == rate_after(before.sample_rate, new)
        &&& self.channels == channels_after(before.channels, new)
        &&& self.total_frames == before.total_frames
        &&& self.last_error == before.last_error
    }

    /// What is left where so many of the pending samples have been taken. Once all are taken, none
    /// are held.
    pub open spec fn drained(self, count: int) -> DecoderView {
        let all = count == self.pending.len();
        DecoderView {
            held: if all {
                Seq::empty()
            } else {
                self.held
            },
            held_taken: if all {
                0
            } else {
                self.held_taken + count
            },
            pending: self.pending.skip(count),
            ..self
        }
    }

    /// The failure of an operation that needs the number of channels.
    pub open spec fn no_channels(error: ApiError) -> bool {
        error.says(SYMPHONIA_C_UNSUPPORTED, "audio channel count is unknown"@)
    }

    /// The failure of an operation on more samples than can be counted.
    pub open spec fn too_many_samples(error: ApiError) -> bool {
        error.says(SYMPHONIA_C_INVALID_ARGUMENT, "frame capacity overflows sample count"@)
    }

    /// The failure of an operation that had no packet left to count.
    pub open spec fn no_more_packets(error: ApiError) -> bool {
        error.says(SYMPHONIA_C_LIMIT_ERROR, "packet limit reached"@)
    }
}

/// What one round brought.
enum Step {
    Play(Vec<u32>),
    Skip,
    End,
    Fail(ApiError),
}

/// One round led from `before` to `after`, and `step` is what it brought.
spec fn went_one_round(before: DecoderView, after: DecoderView, step: Step) -> bool {
    let round = after.rounds.last();
    &&& after.rounds == before.rounds.push(round)
    &&& after == (DecoderView {
        rounds: after.rounds,
        sample_rate: rate_after(before.sample_rate, seq![round]),
        channels: channels_after(before.channels, seq![round]),
        ..before
    })
    &&& match step {
        Step::Play(samples) => round.verdict() matches Verdict::Play(audio) && samples@
            == audio.samples,
        Step::Skip => round.verdict() is Skip,
        Step::End => round.verdict() is End,
        Step::Fail(error) => round.verdict() matches Verdict::Fail(cause) && error.reports(cause),
    }
}

/// A round more is read on from `before` where the rounds until then were.
proof fn lemma_reads_on(before: DecoderView, now: DecoderView, after: DecoderView, step: Step)
    requires
        now.reads_on_from(before),
        went_one_round(now, after, step),
    ensures
        after.reads_on_from(before),
        after.rounds_since(before) == now.rounds_since(before).push(after.rounds.last()),
{
    let round = after.rounds.last();
    let new = now.rounds_since(before);
    assert(after.rounds_since(before) =~= new.push(round));
    assert(after.rounds =~= before.rounds + new.push(round));
    assert(new + seq![round] =~= new.push(round));
    lemma_format_after_concat(before.sample_rate, before.channels, new, seq![round]);
}

/// Reading led from `before` to `after` by one piece of audio, the end of the medium, or a
/// failure: all rounds but the last one were skipped, and the last one is the result.
pub open spec fn fetched(
    before: DecoderView,
    after: DecoderView,
    result: Result<Option<Vec<u32>>, ApiError>,
) -> bool {
    let new = after.rounds_since(before);
    &&& after.reads_on_from(before)
    &&& after.held == before.held
    &&& after.held_taken == before.held_taken
    &&& after.pending == before.pending
    &&& after.eof == before.eof
    &&& forall|k: int| 0 <= k < new.len() - 1 ==> (#[trigger] new[k]).verdict() is Skip
    &&& match result {
        Ok(Some(samples)) => {
            &&& new.len() > 0
            &&& new.last().verdict() matches Verdict::Play(audio)
            &&& samples@ == audio.samples
        },
        Ok(None) => new.len() > 0 && new.last().verdict() is End,
        Err(error) => if failed(new) {
            new.last().verdict() matches Verdict::Fail(cause) && error.reports(cause)
        } else {
            &&& DecoderView::no_more_packets(error)
            &&& after.exhausted()
            &&& new.len() > 0 ==> new.last().verdict() is Skip
        },
    }
}

/// All samples that there were to take between `before` and `after`: those that were pending, and
/// those that the rounds in between brought.
pub open spec fn supply(before: DecoderView, after: DecoderView) -> Seq<u32> {
    before.pending + samples_of(after.rounds_since(before))
}

/// How many of them were taken where `want` were asked for.
pub open spec fn taken(before: DecoderView, after: DecoderView, want: int) -> int {
    least(want, supply(before, after).len() as int)
}

/// What is held where `count` samples have been taken since `before`. Samples that are left over are
/// those of the last round, or where there was none, of what was held before.
pub open spec fn holds_on(before: DecoderView, after: DecoderView, count: int) -> bool {
    let new = after.rounds_since(before);
    if count == 0 && new.len() == 0 {
        after.held == before.held && after.held_taken == before.held_taken
    } else if after.pending.len() == 0 {
        after.held == Seq::<u32>::empty() && after.held_taken == 0
    } else if new.len() == 0 {
        after.held == before.held && after.held_taken == before.held_taken + count
    } else {
        &&& after.held == new.last().samples()
        &&& after.held_taken == after.held.len() - after.pending.len()
    }
}

/// Taking `want` samples led from `before` to `after`. Samples are taken in the order in which they
/// were decoded, and those that are left over stay pending. Nothing was read but what was needed:
/// each round came when there were too few samples yet, and none came after the end of the medium.
/// There are fewer samples than wanted only at the end of the medium or on a failure.
pub open spec fn took(before: DecoderView, after: DecoderView, want: int) -> bool {
    let new = after.rounds_since(before);
    &&& after.reads_on_from(before)
    &&& only_last_stops(new)
    &&& forall|k: int|
        0 <= k < new.len() ==> !before.eof && before.pending.len() + samples_of(
            #[trigger] new.take(k),
        ).len() < want
    &&& taken(before, after, want) == want || after.eof || failed(new) || after.exhausted()
    &&& after.pending == supply(before, after).skip(taken(before, after, want))
    &&& holds_on(before, after, taken(before, after, want))
    &&& after.eof == (before.eof || ended(new))
}

/// No samples are held where none are pending.
spec fn tidy(view: DecoderView) -> bool {
    view.pending.len() == 0 ==> view.held == Seq::<u32>::empty() && view.held_taken == 0
}

/// Taking pending samples, as many as there are unless some are left over, goes on from what was
/// held.
proof fn lemma_holds_on_drained(before: DecoderView, now: DecoderView, so_far: int, count: int)
    requires
        holds_on(before, now, so_far),
        tidy(now),
        so_far >= 0,
        0 <= count <= now.pending.len(),
        count == 0 ==> now.pending.len() == 0,
    ensures
        holds_on(before, now.drained(count), so_far + count),
{
    let after = now.drained(count);
    assert(after.rounds_since(before) == now.rounds_since(before));
}

/// The result of taking `want` samples, where a frame has `channels` of them.
pub open spec fn took_result(
    before: DecoderView,
    after: DecoderView,
    want: int,
    channels: int,
    result: Result<usize, ApiError>,
) -> bool {
    let new = after.rounds_since(before);
    let n = taken(before, after, want);
    match result {
        Ok(frames) => {
            &&& !failed(new)
            &&& n == want || after.eof
            &&& frames == n / channels
        },
        Err(error) => if failed(new) {
            new.last().verdict() matches Verdict::Fail(cause) && error.reports(cause)
        } else {
            DecoderView::no_more_packets(error) && after.exhausted() && n < want && !after.eof
        },
    }
}

/// A read of so many frames into so much room takes nothing: no frames are asked for, or the read is
/// refused.
pub open spec fn takes_nothing(view: DecoderView, frame_capacity: usize, room: nat) -> bool {
    ||| frame_capacity == 0
    ||| view.channels == 0
    ||| frame_capacity * view.channels > usize::MAX
    ||| room < frame_capacity * view.channels
}

/// Reading at most `frame_capacity` frames into a buffer led from `before` to `after`.
pub open spec fn read_frames(
    before: DecoderView,
    after: DecoderView,
    out_before: Seq<u32>,
    out_after: Seq<u32>,
    frame_capacity: usize,
    result: Result<usize, ApiError>,
) -> bool {
    let want = frame_capacity * before.channels;
    if frame_capacity == 0 {
        after == before && out_after == out_before && result == Ok::<usize, ApiError>(0)
    } else if before.channels == 0 {
        &&& after == before
        &&& out_after == out_before
        &&& result matches Err(error) && DecoderView::no_channels(error)
    } else if want > usize::MAX {
        &&& after == before
        &&& out_after == out_before
        &&& result matches Err(error) && DecoderView::too_many_samples(error)
    } else if out_before.len() < want {
        &&& after == before
        &&& out_after == out_before
        &&& result matches Err(error) && error.says(
            SYMPHONIA_C_INVALID_ARGUMENT,
            "output buffer is too small"@,
        )
    } else {
        let n = taken(before, after, want);
        &&& took(before, after, want)
        &&& out_after == supply(before, after).take(n) + out_before.skip(n)
        &&& took_result(before, after, want, before.channels as int, result)
    }
}

/// Reading on is reading on from wherever it was read on from, and what it brings adds to the
/// supply.
#[verifier::spinoff_prover]
pub proof fn lemma_reads_on_twice(before: DecoderView, now: DecoderView, after: DecoderView)
    requires
        now.reads_on_from(before),
        after.reads_on_from(now),
    ensures
        after.reads_on_from(before),
        after.rounds_since(before) == now.rounds_since(before) + after.rounds_since(now),
        supply(before, after) == supply(before, now) + samples_of(after.rounds_since(now)),
{
    let first = now.rounds_since(before);
    let second = after.rounds_since(now);
    assert(after.rounds_since(before) =~= first + second);
    assert(after.rounds =~= before.rounds + (first + second));
    lemma_format_after_concat(before.sample_rate, before.channels, first, second);
    lemma_samples_of_concat(first, second);
    assert(supply(before, after) =~= supply(before, now) + samples_of(second));
}

/// Where there were too few samples before a fetch, there were too few before each of its rounds,
/// and all of its rounds but the last one went on.
#[verifier::spinoff_prover]
proof fn lemma_fetch(
    before: DecoderView,
    now: DecoderView,
    after: DecoderView,
    result: Result<Option<Vec<u32>>, ApiError>,
    want: int,
)
    requires
        now.reads_on_from(before),
        fetched(now, after, result),
        supply(before, now).len() < want,
        forall|k: int|
            0 <= k < now.rounds_since(before).len() ==> (#[trigger] now.rounds_since(
                before,
            )[k]).goes_on(),
        forall|k: int|
            0 <= k < now.rounds_since(before).len() ==> before.pending.len() + samples_of(
                #[trigger] now.rounds_since(before).take(k),
            ).len() < want,
    ensures
        after.reads_on_from(before),
        only_last_stops(after.rounds_since(before)),
        forall|k: int|
            0 <= k < after.rounds_since(before).len() ==> before.pending.len() + samples_of(
                #[trigger] after.rounds_since(before).take(k),
            ).len() < want,
        supply(before, after) == supply(before, now) + match result {
            Ok(Some(samples)) => samples@,
            _ => Seq::<u32>::empty(),
        },
        after.rounds_since(before).len() == now.rounds_since(before).len() + after.rounds_since(
            now,
        ).len(),
        after.rounds_since(now).len() > 0 ==> after.rounds_since(before).last()
            == after.rounds_since(now).last(),
{
    lemma_reads_on_twice(before, now, after);
    let first = now.rounds_since(before);
    let second = after.rounds_since(now);
    let new = after.rounds_since(before);
    assert forall|k: int| 0 <= k < new.len() implies before.pending.len() + samples_of(
        #[trigger] new.take(k),
    ).len() < want by {
        if k < first.len() {
            assert(new.take(k) =~= first.take(k));
        } else {
            let rest = second.take(k - first.len());
            assert(new.take(k) =~= first + rest);
            assert forall|j: int| 0 <= j < rest.len() implies !((
            #[trigger] rest[j]).verdict() is Play) by {
                assert(rest[j] == second[j]);
            }
            lemma_silent_rounds(0, 0, rest);
            lemma_samples_of_concat(first, rest);
        }
    }
    assert forall|k: int| 0 <= k < new.len() - 1 implies (#[trigger] new[k]).goes_on() by {
        if k < first.len() {
            assert(new[k] == first[k]);
        } else {
            assert(new[k] == second[k - first.len()]);
        }
    }
    if second.len() > 0 {
        let rest = second.drop_last();
        assert forall|j: int| 0 <= j < rest.len() implies !((#[trigger] rest[j]).verdict() is Play) by {
            assert(rest[j] == second[j]);
        }
        lemma_silent_rounds(0, 0, rest);
        assert(samples_of(second) =~= second.last().samples());
    }
    assert(supply(before, after) =~= supply(before, now) + match result {
        Ok(Some(samples)) => samples@,
        _ => Seq::<u32>::empty(),
    });
}

/// What is decoded of a medium: its default audio track.
#[derive(Debug)]
pub struct TrackSetup<'a> {
    pub track_id: u32,
    pub sample_rate: u32,
    pub channels: u32,
    pub total_frames: u64,
    pub params: &'a AudioParameters,
}

/// The failure to open a medium with this default audio track, if any.
pub open spec fn refuses_track(track: Option<MediaTrack>, error: ApiError) -> bool {
    match track {
        None => error.says(SYMPHONIA_C_UNSUPPORTED, "no audio track found"@),
        Some(t) => {
            &&& !(t.codec_params matches Some(TrackParameters::Audio(_)))
            &&& error.says(SYMPHONIA_C_UNSUPPORTED, "audio track is missing codec parameters"@)
        },
    }
}

/// The sample rate of an audio track, or 0 where the container does not say.
pub open spec fn rate_of_track(params: AudioParameters) -> u32 {
    match params.sample_rate {
        Some(rate) => rate,
        None => 0,
    }
}

/// The number of channels of an audio track, or 0 where the container does not say.
pub open spec fn channels_of_track(params: AudioParameters) -> u32 {
    match params.channels {
        Some(channels) => channel_count(channels) as u32,
        None => 0,
    }
}

/// The number of frames of a track, or 0 where the container does not say.
pub open spec fn frames_of_track(track: MediaTrack) -> u64 {
    match track.num_frames {
        Some(frames) => frames,
        None => 0,
    }
}

/// Takes out of the default audio track what its decoding needs.
pub fn track_setup<'a>(track: Option<&'a MediaTrack>) -> (result: Result<TrackSetup<'a>, ApiError>)
    ensures
        match (track, result) {
            (Some(t), Ok(setup)) => {
                &&& t.codec_params == Some(TrackParameters::Audio(*setup.params))
                &&& setup.track_id == t.id
                &&& setup.sample_rate == rate_of_track(*setup.params)
                &&& setup.channels == channels_of_track(*setup.params)
                &&& setup.total_frames == frames_of_track(*t)
                &&& setup.params.sample_rate is None ==> setup.sample_rate == 0
                &&& setup.params.sample_rate is Some ==> setup.sample_rate
                    == setup.params.sample_rate->0
                &&& setup.params.channels is None ==> setup.channels == 0
                &&& setup.params.channels is Some ==> setup.channels == channel_count(
                    setup.params.channels->0,
                ) as u32
                &&& t.num_frames is None ==> setup.total_frames == 0
                &&& t.num_frames is Some ==> setup.total_frames == t.num_frames->0
            },
            (Some(t), Err(error)) => refuses_track(Some(*t), error),
            (None, Ok(_)) => false,
            (None, Err(error)) => refuses_track(None, error),
        },
{
    let track = match track {
        Some(track) => track,
        None => {
            return Err(ApiError::new(SYMPHONIA_C_UNSUPPORTED, "no audio track found"));
        },
    };
    let params = match &track.codec_params {
        Some(TrackParameters::Audio(params)) => params,
        _ => {
            return Err(
                ApiError::new(SYMPHONIA_C_UNSUPPORTED, "audio track is missing codec parameters"),
            );
        },
    };
    let channels: u32 = match &params.channels {
        Some(channels) => channels.count() as u32,
        None => 0,
    };
    Ok(
        TrackSetup {
            track_id: track.id,
            sample_rate: params.sample_rate.unwrap_or(0),
            channels,
            total_frames: track.num_frames.unwrap_or(0),
            params,
        },
    )
}

/// The decoder is open on the default audio track of its container, with a codec for that track,
/// and nothing has been read yet.
pub open spec fn fresh(decoder: SymphoniaCDecoder, extension: Option<Seq<char>>) -> bool {
    let view = decoder@;
    &&& decoder.wf()
    &&& probed_with(decoder.reader()) == extension
    &&& audio_track(decoder.reader()) matches Some(track)
    &&& track.codec_params == Some(TrackParameters::Audio(made_with(decoder.codec())))
    &&& view.rounds == Seq::<Round>::empty()
    &&& view.track_id == track.id
    &&& view.sample_rate == rate_of_track(made_with(decoder.codec()))
    &&& view.channels == channels_of_track(made_with(decoder.codec()))
    &&& view.total_frames == frames_of_track(track)
    &&& view.held == Seq::<u32>::empty()
    &&& view.held_taken == 0
    &&& view.pending == Seq::<u32>::empty()
    &&& !view.eof
    &&& view.last_error == Seq::<u8>::empty()
}

/// What is decoded of the container: the parameters of its default audio track, if it has one that
/// can be decoded.
pub open spec fn track_params(format: PacketReader) -> Option<AudioParameters> {
    match audio_track(format) {
        Some(track) => match track.codec_params {
            Some(TrackParameters::Audio(params)) => Some(params),
            _ => None,
        },
        None => None,
    }
}

/// The result of opening a container, where `codec` is what came of making a codec for its track: a
/// decoder if there is a codec, and otherwise the failure that reports why there is none.
pub open spec fn opened_coded(
    format: PacketReader,
    codec: Result<Codec, MediaError>,
    result: Result<SymphoniaCDecoder, ApiError>,
) -> bool {
    match codec {
        Err(cause) => result matches Err(error) && error.reports(cause),
        Ok(c) => {
            &&& result matches Ok(decoder)
            &&& decoder.reader() == format
            &&& decoder.codec() == c
            &&& fresh(decoder, probed_with(format))
        },
    }
}

/// The result of opening a medium, where `probed` is what came of finding its container: the failure
/// that reports why there is none, the refusal of a container without a track that can be decoded,
/// or else what comes of making a codec for the track.
pub open spec fn opened_probed(
    probed: Result<PacketReader, MediaError>,
    result: Result<SymphoniaCDecoder, ApiError>,
) -> bool {
    match probed {
        Err(cause) => result matches Err(error) && error.reports(cause),
        Ok(format) => match track_params(format) {
            None => result matches Err(error) && refuses_track(audio_track(format), error),
            Some(params) => exists|codec: Result<Codec, MediaError>| #[trigger]
                codes_to(params, codec) && opened_coded(format, codec, result),
        },
    }
}

/// The result of opening the medium that a stream holds, with this hint about its format.
pub open spec fn opened(
    hint: FormatHint,
    stream: MediaStream,
    result: Result<SymphoniaCDecoder, ApiError>,
) -> bool {
    &&& exists|probed: Result<PacketReader, MediaError>| #[trigger]
        probes_to(hint, stream, probed) && opened_probed(probed, result)
    &&& result matches Ok(decoder) ==> fresh(decoder, hint_extension(hint))
}

/// The result of opening the file of this name, where `file` is what came of opening it for
/// reading.
pub open spec fn opened_file(
    path: Seq<char>,
    file: Result<MediaStream, std::io::Error>,
    result: Result<SymphoniaCDecoder, ApiError>,
) -> bool {
    match file {
        Ok(stream) => exists|hint: FormatHint|
            is_extension_of(hint_extension(hint), path) && #[trigger] opened(hint, stream, result),
        Err(cause) => result matches Err(error) && error.reports_io(cause),
    }
}

/// The rounds of a decoder are the record of its container and its codec: what was read is what the
/// rounds read, and what was asked of the codec is what the rounds asked of it. So every packet of
/// the track was decoded once and in order, no other packet was, and the codec was reset whenever
/// it said so and at no other time. Every piece of audio is made up of whole frames. There are no
/// more rounds than can be counted.
pub proof fn law_rounds_are_the_record(decoder: SymphoniaCDecoder)
    requires
        decoder.wf(),
    ensures
        reads(decoder.reader()) == reads_of(decoder@.rounds),
        codec_steps(decoder.codec()) == steps_of(decoder@.rounds),
        decoder@.rounds.len() <= u64::MAX,
        forall|k: int|
            0 <= k < decoder@.rounds.len() ==> (#[trigger] decoder@.rounds[k]).belongs(
                decoder@.track_id,
            ) && decoder@.rounds[k].whole(),
{
}

/// The samples of a packet are let go once all of them have been taken: some of those that are held
/// are still pending, or none are held. Once the medium has ended nothing is pending.
pub proof fn law_pending_is_tidy(decoder: SymphoniaCDecoder)
    requires
        decoder.wf(),
    ensures
        0 <= decoder@.held_taken < decoder@.held.len() || (decoder@.held.len() == 0
            && decoder@.held_taken == 0),
        decoder@.pending == decoder@.held.skip(decoder@.held_taken),
        decoder@.eof ==> decoder@.held.len() == 0 && decoder@.pending.len() == 0,
{
}

impl SymphoniaCDecoder {
    /// The decoder is as its constructors and methods leave it. The rounds are what was read from
    /// the container and asked of the codec.
    pub closed spec fn wf(self) -> bool {
        &&& self.pending_offset < self.pending@.len() || (self.pending@.len() == 0
            && self.pending_offset == 0)
        &&& self.eof ==> self.pending@.len() == 0
        &&& self.packets_read == self.rounds@.len()
        &&& reads(self.format) == reads_of(self.rounds@)
        &&& codec_steps(self.decoder) == steps_of(self.rounds@)
        &&& forall|k: int|
            0 <= k < self.rounds@.len() ==> (#[trigger] self.rounds@[k]).belongs(self.track_id)
                && self.rounds@[k].whole()
    }

    /// The container that is read.
    pub closed spec fn reader(self) -> PacketReader {
        self.format
    }

    /// The codec that decodes its packets.
    pub closed spec fn codec(self) -> Codec {
        self.decoder
    }

    /// The decoder has the container and the codec that it had before.
    pub open spec fn keeps_media(self, before: SymphoniaCDecoder) -> bool {
        self.reader() == before.reader() && self.codec() == before.codec()
    }

    /// The decoder still reads the medium and asks the codec that it was opened with: the container
    /// was probed with the same file extension, and the codec was made with the same parameters.
    pub open spec fn comes_from(self, before: SymphoniaCDecoder) -> bool {
        &&& probed_with(self.reader()) == probed_with(before.reader())
        &&& made_with(self.codec()) == made_with(before.codec())
    }

    /// Opens a container from which nothing has been read yet, where `codec` is what came of making
    /// a codec for its default audio track.
    pub fn open_coded(format: PacketReader, codec: Result<Codec, MediaError>) -> (result: Result<
        SymphoniaCDecoder,
        ApiError,
    >)
        requires
            reads(format) == Seq::<Read>::empty(),
            track_params(format) is Some,
            codec matches Ok(c) ==> codec_steps(c) == Seq::<CodecStep>::empty() && track_params(
                format,
            ) == Some(made_with(c)),
        ensures
            opened_coded(format, codec, result),
    {
        let decoder = match codec {
            Ok(decoder) => decoder,
            Err(error) => {
                return Err(ApiError::from(error));
            },
        };
        let setup = match track_setup(default_track(&format)) {
            Ok(setup) => setup,
            Err(error) => {
                return Err(error);
            },
        };
        let track_id = setup.track_id;
        let sample_rate = setup.sample_rate;
        let channels = setup.channels;
        let total_frames = setup.total_frames;
        let opened = SymphoniaCDecoder {
            format,
            decoder,
            track_id,
            sample_rate,
            channels,
            total_frames,
            pending: Vec::new(),
            pending_offset: 0,
            eof: false,
            last_error: c_string(""),
            packets_read: 0,
            rounds: Ghost(Seq::empty()),
        };
        proof {
            assert(reads_of(Seq::empty()) =~= Seq::<Read>::empty());
            assert(opened@.pending =~= Seq::<u32>::empty());
            reveal_strlit("");
            assert(opened@.last_error =~= Seq::<u8>::empty());
        }
        Ok(opened)
    }

    /// Opens a medium, where `probed` is what came of finding its container.
    pub fn open_probed(probed: Result<PacketReader, MediaError>) -> (result: Result<
        SymphoniaCDecoder,
        ApiError,
    >)
        requires
            probed matches Ok(format) ==> reads(format) == Seq::<Read>::empty(),
        ensures
            opened_probed(probed, result),
    {
        let format = match probed {
            Ok(format) => format,
            Err(error) => {
                return Err(ApiError::from(error));
            },
        };
        let codec = match track_setup(default_track(&format)) {
            Ok(setup) => make_codec(setup.params),
            Err(error) => {
                return Err(error);
            },
        };
        SymphoniaCDecoder::open_coded(format, codec)
    }

    /// Opens the medium that a stream holds.
    pub fn open_stream(hint: &FormatHint, stream: MediaStream) -> (result: Result<
        SymphoniaCDecoder,
        ApiError,
    >)
        ensures
            opened(*hint, stream, result),
    {
        let probed = probe_medium(hint, stream);
        SymphoniaCDecoder::open_probed(probed)
    }

    /// Opens the file of this name. `open` makes a stream of the file.
    pub fn open_file<F: FnOnce(&str) -> Result<MediaStream, std::io::Error>>(
        path: &str,
        open: F,
    ) -> (result: Result<SymphoniaCDecoder, ApiError>)
        requires
            call_requires(open, (path,)),
        ensures
            exists|file: Result<MediaStream, std::io::Error>| #[trigger]
                call_ensures(open, (path,), file) && opened_file(path@, file, result),
    {
        let file = open(path);
        let ghost what = file;
        let result = match file {
            Ok(stream) => {
                let hint = format_hint(path);
                SymphoniaCDecoder::open_stream(&hint, stream)
            },
            Err(error) => Err(ApiError::from(error)),
        };
        assert(call_ensures(open, (path,), what) && opened_file(path@, what, result));
        result
    }

    /// Reads the next packet, and decodes it if it is of the decoder's track.
    fn go_one_round(&mut self) -> (step: Step)
        requires
            old(self).wf(),
            old(self).packets_read < u64::MAX,
        ensures
            final(self).wf(),
            went_one_round(old(self)@, final(self)@, step),
            final(self).comes_from(*old(self)),
    {
        let ghost steps = codec_steps(self.decoder);
        let read = next_packet(&mut self.format);
        self.packets_read = self.packets_read + 1;
        let ghost seen = read;
        let ghost mut round = Round { read: seen, decoded: None };
        let step = match read {
            Err(error) => Step::Fail(ApiError::from(error)),
            Ok(None) => Step::End,
            Ok(Some(packet)) => if packet.track_id != self.track_id {
                Step::Skip
            } else {
                let outcome = decode_packet(&mut self.decoder, &packet);
                proof {
                    round = Round { read: seen, decoded: Some(outcome_view(outcome)) };
                }
                match judge(outcome) {
                    Judgement::Play(audio) => {
                        self.sample_rate = audio.rate;
                        self.channels = audio.channels as u32;
                        Step::Play(audio.samples)
                    },
                    Judgement::Skip => Step::Skip,
                    Judgement::ResetCodec => {
                        reset(&mut self.decoder);
                        Step::Skip
                    },
                    Judgement::Fail(error) => Step::Fail(error),
                }
            },
        };
        proof {
            assert(codec_steps(self.decoder) =~= steps + round.steps());
            lemma_steps_of_push(self.rounds@, round);
            self.rounds@ = self.rounds@.push(round);
            assert(seq![round].drop_last() =~= Seq::<Round>::empty());
            assert(self@.rounds =~= old(self)@.rounds.push(round));
            reveal_with_fuel(rate_after, 2);
            reveal_with_fuel(channels_after, 2);
        }
        step
    }

    /// Reads and decodes packets until one of the decoder's track brings audio. Packets of other
    /// tracks and malformed packets are passed over, and a codec that asks to be reset is reset.
    /// After `u64::MAX` packets no more are read.
    pub fn decode_next_samples(&mut self) -> (result: Result<Option<Vec<u32>>, ApiError>)
        requires
            old(self).wf(),
        ensures
            final(self).wf(),
            fetched(old(self)@, final(self)@, result),
            final(self).comes_from(*old(self)),
            final(self)@.rounds == old(self)@.rounds ==> *final(self) == *old(self),
    {
        let ghost before = self@;
        proof {
            assert(self@.rounds_since(before) =~= Seq::<Round>::empty());
            assert(self@.rounds =~= before.rounds + Seq::<Round>::empty());
        }
        loop
            invariant
                before == old(self)@,
                self.wf(),
                self@.held == before.held,
                self@.held_taken == before.held_taken,
                self@.pending == before.pending,
                self@.eof == before.eof,
                self@.reads_on_from(before),
                self.comes_from(*old(self)),
                self@.rounds.len() == before.rounds.len() ==> *self == *old(self),
                forall|k: int|
                    0 <= k < self@.rounds_since(before).len() ==> (
                    #[trigger] self@.rounds_since(before)[k]).verdict() is Skip,
            decreases u64::MAX - self.packets_read,
        {
            if self.packets_read == u64::MAX {
                return Err(ApiError::new(SYMPHONIA_C_LIMIT_ERROR, "packet limit reached"));
            }
            let ghost now = self@;
            let step = self.go_one_round();
            proof {
                lemma_reads_on(before, now, self@, step);
            }
            match step {
                Step::Play(samples) => {
                    return Ok(Some(samples));
                },
                Step::End => {
                    return Ok(None);
                },
                Step::Fail(error) => {
                    return Err(error);
                },
                Step::Skip => {},
            }
        }
    }

    /// The number of channels, where it is known.
    pub fn channel_count(&self) -> (result: Result<usize, ApiError>)
        ensures
            if self@.channels == 0 {
                result matches Err(error) && DecoderView::no_channels(error)
            } else {
                result matches Ok(count) && count == self@.channels
            },
    {
        if self.channels == 0 {
            return Err(ApiError::new(SYMPHONIA_C_UNSUPPORTED, "audio channel count is unknown"));
        }
        Ok(self.channels as usize)
    }

    /// The number of samples in so many frames.
    pub fn sample_capacity(&self, frame_capacity: usize) -> (result: Result<usize, ApiError>)
        ensures
            if self@.channels == 0 {
                result matches Err(error) && DecoderView::no_channels(error)
            } else if frame_capacity * self@.channels > usize::MAX {
                result matches Err(error) && DecoderView::too_many_samples(error)
            } else {
                result matches Ok(count) && count == frame_capacity * self@.channels
            },
    {
        let channels = match self.channel_count() {
            Ok(channels) => channels,
            Err(error) => {
                return Err(error);
            },
        };
        match frame_capacity.checked_mul(channels) {
            Some(count) => Ok(count),
            None => Err(ApiError::invalid_argument("frame capacity overflows sample count")),
        }
    }

    /// Moves pending samples to the front of `out`, as many as there are and fit.
    pub fn drain_pending(&mut self, out: &mut [u32]) -> (count: usize)
        requires
            old(self).wf(),
        ensures
            final(self).wf(),
            count == least(old(self)@.pending.len() as int, old(out)@.len() as int),
            final(out)@ == old(self)@.pending.take(count as int) + old(out)@.skip(count as int),
            final(self)@ == old(self)@.drained(count as int),
            final(self).keeps_media(*old(self)),
            count == 0 ==> *final(self) == *old(self),
    {
        let remaining = self.pending.len().saturating_sub(self.pending_offset);
        let count = if remaining < out.len() {
            remaining
        } else {
            out.len()
        };
        if count > 0 {
            let start = self.pending_offset;
            let end = start + count;
            let mut i: usize = 0;
            while i < count
                invariant
                    i <= count <= out@.len(),
                    start + count == end <= self.pending@.len(),
                    out@ == self.pending@.subrange(start as int, start + i) + old(out)@.skip(
                        i as int,
                    ),
                    out@.len() == old(out)@.len(),
                decreases count - i,
            {
                out[i] = self.pending[start + i];
                i = i + 1;
                assert(out@ =~= self.pending@.subrange(start as int, start + i) + old(out)@.skip(
                    i as int,
                ));
            }
            self.pending_offset = end;
            assert(self.pending@.skip(end as int) =~= old(self)@.pending.skip(count as int));
            if self.pending_offset == self.pending.len() {
                self.pending.clear();
                self.pending_offset = 0;
            }
        }
        assert(out@ =~= old(self)@.pending.take(count as int) + old(out)@.skip(count as int));
        assert(self@.pending =~= old(self)@.pending.skip(count as int));
        assert(self@.held =~= old(self)@.drained(count as int).held);
        count
    }

    /// Reads at most `frame_capacity` frames into `out` and returns how many were read. Fewer come
    /// only at the end of the medium. Samples that do not fill a frame there are in `out` and are
    /// not counted; on a failure `out` holds the samples that came before it.
    #[verifier::spinoff_prover]
    #[verifier::rlimit(40)]
    pub fn read_f32(&mut self, out: &mut [u32], frame_capacity: usize) -> (result: Result<
        usize,
        ApiError,
    >)
        requires
            old(self).wf(),
        ensures
            final(self).wf(),
            read_frames(old(self)@, final(self)@, old(out)@, final(out)@, frame_capacity, result),
            final(self).comes_from(*old(self)),
            takes_nothing(old(self)@, frame_capacity, old(out)@.len()) ==> *final(self) == *old(
                self,
            ),
            final(self)@.rounds == old(self)@.rounds ==> final(self).keeps_media(*old(self)),
    {
        if frame_capacity == 0 {
            return Ok(0);
        }
        let sample_capacity = match self.sample_capacity(frame_capacity) {
            Ok(count) => count,
            Err(error) => {
                return Err(error);
            },
        };
        let channels = self.channels as usize;
        if out.len() < sample_capacity {
            return Err(ApiError::invalid_argument("output buffer is too small"));
        }
        assert(sample_capacity > 0) by (nonlinear_arith)
            requires
                sample_capacity == frame_capacity * self@.channels,
                frame_capacity > 0,
                self@.channels > 0,
        ;
        let ghost before = self@;
        let ghost target = out@;
        let ghost want = sample_capacity as int;
        let mut written: usize = 0;
        proof {
            assert(self@.rounds_since(before) =~= Seq::<Round>::empty());
            assert(self@.rounds =~= before.rounds + Seq::<Round>::empty());
            assert(supply(before, self@) =~= before.pending);
            assert(out@ =~= supply(before, self@).take(0) + target.skip(0));
            assert(self@.pending =~= supply(before, self@).skip(0));
        }
        loop
            invariant
                self.wf(),
                before == old(self)@,
                target == old(out)@,
                want == sample_capacity,
                want == frame_capacity * before.channels,
                frame_capacity > 0,
                channels == before.channels,
                channels > 0,
                want <= target.len(),
                written < want,
                self@.reads_on_from(before),
                self@.eof == before.eof,
                forall|k: int|
                    0 <= k < self@.rounds_since(before).len() ==> (
                    #[trigger] self@.rounds_since(before)[k]).goes_on(),
                forall|k: int|
                    0 <= k < self@.rounds_since(before).len() ==> !before.eof
                        && before.pending.len() + samples_of(
                        #[trigger] self@.rounds_since(before).take(k),
                    ).len() < want,
                written <= supply(before, self@).len(),
                out@ == supply(before, self@).take(written as int) + target.skip(written as int),
                self@.pending == supply(before, self@).skip(written as int),
                holds_on(before, self@, written as int),
                !takes_nothing(before, frame_capacity, target.len()),
                self.comes_from(*old(self)),
                self@.rounds.len() == before.rounds.len() ==> self.keeps_media(*old(self)),
            decreases u64::MAX - self@.rounds.len(),
        {
            let ghost held_before = self@;
            let (_, rest) = out.split_at_mut(written);
            let (room, _) = rest.split_at_mut(sample_capacity - written);
            let count = self.drain_pending(room);
            proof {
                let all = supply(before, self@);
                assert(all.skip(written as int).take(count as int) =~= all.subrange(
                    written as int,
                    written + count,
                ));
                assert(out@ =~= all.take(written + count) + target.skip(written + count));
                assert(self@.pending =~= all.skip(written + count));
                lemma_holds_on_drained(before, held_before, written as int, count as int);
            }
            written = written + count;
            if written >= sample_capacity || self.eof {
                return Ok(written / channels);
            }
            let ghost now = self@;
            let fetch = self.decode_next_samples();
            proof {
                lemma_fetch(before, now, self@, fetch, want);
            }
            match fetch {
                Ok(Some(samples)) => {
                    if samples.len() > 0 {
                        self.pending = samples;
                        self.pending_offset = 0;
                    }
                },
                Ok(None) => {
                    self.eof = true;
                    return Ok(written / channels);
                },
                Err(error) => {
                    return Err(error);
                },
            }
        }
    }

    /// The sample rate in Hertz, or 0 where it is not known yet.
    pub fn sample_rate(&self) -> (rate: u32)
        ensures
            rate == self@.sample_rate,
    {
        self.sample_rate
    }

    /// The number of channels, or 0 where it is not known yet.
    pub fn channels(&self) -> (channels: u32)
        ensures
            channels == self@.channels,
    {
        self.channels
    }

    /// The length of the track in frames, or 0 where it is not known.
    pub fn total_frames(&self) -> (frames: u64)
        ensures
            frames == self@.total_frames,
    {
        self.total_frames
    }

    /// Whether the medium has ended.
    pub fn at_end(&self) -> (eof: bool)
        ensures
            eof == self@.eof,
    {
        self.eof
    }

    /// The message of the last failure.
    pub fn last_error(&self) -> (message: &CMessage)
        ensures
            message@ == self@.last_error,
    {
        &self.last_error
    }

    /// Replaces the message of the last failure.
    pub fn set_error(&mut self, message: &str)
        ensures
            old(self).wf() ==> final(self).wf(),
            final(self)@ == (DecoderView { last_error: message_bytes(message@), ..old(self)@ }),
            final(self).keeps_media(*old(self)),
    {
        self.last_error = c_string(message);
    }

    /// Leaves no message of a failure.
    pub fn clear_error(&mut self)
        ensures
            old(self).wf() ==> final(self).wf(),
            final(self)@ == (DecoderView { last_error: Seq::empty(), ..old(self)@ }),
            final(self).keeps_media(*old(self)),
    {
        self.set_error("");
        proof {
            reveal_strlit("");
            assert(self@.last_error =~= Seq::<u8>::empty());
        }
    }
}

} // verus!
