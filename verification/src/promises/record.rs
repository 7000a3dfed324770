//! What a decoder keeps of what Symphonia gave.

use vstd::prelude::*;
use crate::decoder::{SymphoniaCDecoder, law_rounds_are_the_record};
use crate::error::MediaError;
use crate::media::{
    Audio, AudioRef, Codec, CodecStep, DecodedAudio, MediaPacket, audio_channels, audio_of,
    audio_rate, audio_samples, codec_steps, decode_packet, made_with, outcome_of, read_audio, reads,
};
use crate::session::{
    Judgement, Round, Verdict, channels_after, ended, failed, judge, lemma_steps_of_push,
    only_last_stops, rate_after, reads_of, samples_of, steps_of,
};

verus! {

/// The audio that is taken out of a buffer has the rate and the channels of the buffer, and its
/// samples are the interleaved samples that Symphonia gives for the buffer, one for one and in
/// their order, whatever the number of channels.
pub proof fn law_audio_is_taken_as_it_is<'a>(audio: &AudioRef<'a>, decoded: DecodedAudio)
    requires
        call_ensures(read_audio, (audio,), decoded),
    ensures
        decoded.rate == audio_rate(*audio),
        decoded.channels == audio_channels(*audio),
        decoded.samples@.len() == audio_samples(*audio).len(),
        forall|i: int|
            0 <= i < audio_samples(*audio).len() ==> #[trigger] decoded.samples@[i]
                == audio_samples(*audio)[i],
        decoded.samples@ == audio_samples(*audio),
        decoded@.rate == audio_rate(*audio),
        decoded@.channels == audio_channels(*audio),
        decoded@.samples == audio_samples(*audio),
{
}

/// What is on the record of a codec for a buffer that it gave is that buffer's rate, channels and
/// samples, and for an error that error.
pub proof fn law_outcomes_are_recorded_as_they_are<'a>(audio: AudioRef<'a>, error: MediaError)
    ensures
        audio_of(audio).rate == audio_rate(audio),
        audio_of(audio).channels == audio_channels(audio),
        audio_of(audio).samples == audio_samples(audio),
        outcome_of(Ok(audio)) matches Ok(kept) && kept.rate == audio_rate(audio) && kept.channels
            == audio_channels(audio) && kept.samples == audio_samples(audio),
        outcome_of(Err(error)) == Err::<Audio, MediaError>(error),
{
}

/// Decoding a packet adds one step to the record of the codec: that packet, with the audio or the
/// error that is handed on.
pub proof fn law_decoding_a_packet_is_recorded(
    codec: &mut Codec,
    packet: &MediaPacket,
    outcome: Result<DecodedAudio, MediaError>,
)
    requires
        call_ensures(decode_packet, (codec, packet), outcome),
    ensures
        codec_steps(*final(codec)).len() == codec_steps(*old(codec)).len() + 1,
        codec_steps(*final(codec)).drop_last() == codec_steps(*old(codec)),
        codec_steps(*final(codec)).last() == (CodecStep::Decode {
            packet: *packet,
            outcome: match outcome {
                Ok(audio) => Ok(
                    Audio { rate: audio.rate, channels: audio.channels, samples: audio.samples@ },
                ),
                Err(error) => Err(error),
            },
        }),
        made_with(*final(codec)) == made_with(*old(codec)),
        outcome matches Ok(audio) ==> if audio.channels == 0 {
            audio.samples@.len() == 0
        } else {
            audio.samples@.len() as int % audio.channels as int == 0
        },
{
    assert(codec_steps(*final(codec)).drop_last() =~= codec_steps(*old(codec)));
}

/// Audio is always handed on as it is, however much there is of it. Only a malformed packet and a
/// codec that must be reset are passed over. Every other error is reported.
pub proof fn law_audio_is_never_passed_over(
    outcome: Result<DecodedAudio, MediaError>,
    judgement: Judgement,
)
    requires
        call_ensures(judge, (outcome,), judgement),
    ensures
        match outcome {
            Ok(audio) => judgement == Judgement::Play(audio),
            Err(MediaError::DecodeError(_)) => judgement == Judgement::Skip,
            Err(MediaError::ResetRequired) => judgement == Judgement::ResetCodec,
            Err(error) => judgement matches Judgement::Fail(failure) && failure.reports(error),
        },
        judgement is Skip <==> outcome matches Err(MediaError::DecodeError(_)),
        judgement is ResetCodec <==> outcome matches Err(MediaError::ResetRequired),
        judgement is Play <==> outcome is Ok,
{
}

/// A round plays if and only if a packet was read and decoded to audio; it ends the session if and
/// only if the medium had no more packets; it fails it if and only if reading failed, or decoding
/// failed otherwise than on a malformed packet or for want of a reset. Any other round is passed
/// over.
pub proof fn law_rounds_mean_what_came_of_them(round: Round)
    ensures
        match round.read {
            Err(error) => round.verdict() == Verdict::Fail(error),
            Ok(None) => round.verdict() == Verdict::End,
            Ok(Some(_)) => match round.decoded {
                None => round.verdict() == Verdict::Skip,
                Some(Ok(audio)) => round.verdict() == Verdict::Play(audio),
                Some(Err(MediaError::DecodeError(_))) => round.verdict() == Verdict::Skip,
                Some(Err(MediaError::ResetRequired)) => round.verdict() == Verdict::Skip,
                Some(Err(error)) => round.verdict() == Verdict::Fail(error),
            },
        },
        round.goes_on() <==> {
            &&& round.read matches Ok(Some(_))
            &&& match round.decoded {
                None => true,
                Some(Ok(_)) => true,
                Some(Err(MediaError::DecodeError(_))) => true,
                Some(Err(MediaError::ResetRequired)) => true,
                Some(Err(_)) => false,
            }
        },
        round.samples() == match (round.read, round.decoded) {
            (Ok(Some(_)), Some(Ok(audio))) => audio.samples,
            _ => Seq::empty(),
        },
{
}

/// The samples of a session are those of every piece of audio that was decoded in it, one after the
/// other, with none left out: none at its start, and with each round those of the audio that its
/// packet decoded to, if any.
pub proof fn law_every_piece_of_audio_is_played(rounds: Seq<Round>, round: Round)
    ensures
        samples_of(Seq::<Round>::empty()) == Seq::<u32>::empty(),
        samples_of(rounds.push(round)) == match (round.read, round.decoded) {
            (Ok(Some(_)), Some(Ok(audio))) => samples_of(rounds) + audio.samples,
            _ => samples_of(rounds),
        },
{
    assert(rounds.push(round).drop_last() =~= rounds);
    assert(samples_of(rounds) + Seq::<u32>::empty() =~= samples_of(rounds));
}

/// The rate and the number of channels of a session are those of the last audio that was decoded in
/// it.
pub proof fn law_the_last_audio_gives_the_format(
    rate: u32,
    channels: u32,
    rounds: Seq<Round>,
    round: Round,
)
    ensures
        rate_after(rate, Seq::<Round>::empty()) == rate,
        channels_after(channels, Seq::<Round>::empty()) == channels,
        match (round.read, round.decoded) {
            (Ok(Some(_)), Some(Ok(audio))) => {
                &&& rate_after(rate, rounds.push(round)) == audio.rate
                &&& channels_after(channels, rounds.push(round)) == audio.channels as u32
            },
            _ => {
                &&& rate_after(rate, rounds.push(round)) == rate_after(rate, rounds)
                &&& channels_after(channels, rounds.push(round)) == channels_after(channels, rounds)
            },
        },
{
    assert(rounds.push(round).drop_last() =~= rounds);
}

/// A session asks of its codec to decode each packet that it decodes, once and in order, and to be
/// reset after each packet on which the codec said so, and nothing else.
pub proof fn law_the_codec_is_asked_in_order(rounds: Seq<Round>, round: Round)
    ensures
        steps_of(Seq::<Round>::empty()) == Seq::<CodecStep>::empty(),
        steps_of(rounds.push(round)) == match (round.read, round.decoded) {
            (Ok(Some(packet)), Some(outcome)) => {
                let asked = steps_of(rounds).push(CodecStep::Decode { packet, outcome });
                if outcome matches Err(MediaError::ResetRequired) {
                    asked.push(CodecStep::Reset)
                } else {
                    asked
                }
            },
            _ => steps_of(rounds),
        },
{
    lemma_steps_of_push(rounds, round);
    match (round.read, round.decoded) {
        (Ok(Some(packet)), Some(outcome)) => {
            let asked = steps_of(rounds).push(CodecStep::Decode { packet, outcome });
            if outcome matches Err(MediaError::ResetRequired) {
                assert(steps_of(rounds.push(round)) =~= asked.push(CodecStep::Reset));
            } else {
                assert(steps_of(rounds.push(round)) =~= asked);
            }
        },
        _ => {
            assert(steps_of(rounds.push(round)) =~= steps_of(rounds));
        },
    }
}

/// What the rounds read is what each of them read; all of them but the last one went on where each
/// of those went on; they ended or failed as the last one did.
pub proof fn law_lists_of_rounds(rounds: Seq<Round>)
    ensures
        reads_of(rounds).len() == rounds.len(),
        forall|k: int| 0 <= k < rounds.len() ==> #[trigger] reads_of(rounds)[k] == rounds[k].read,
        only_last_stops(rounds) <==> forall|k: int|
            0 <= k < rounds.len() - 1 ==> (#[trigger] rounds[k]).goes_on(),
        ended(rounds) <==> rounds.len() > 0 && rounds.last().read == Ok::<
            Option<MediaPacket>,
            MediaError,
        >(None),
        failed(rounds) <==> rounds.len() > 0 && match (rounds.last().read, rounds.last().decoded) {
            (Err(_), _) => true,
            (Ok(Some(_)), Some(Err(error))) => !(error matches MediaError::DecodeError(_)) && !(
            error matches MediaError::ResetRequired),
            _ => false,
        },
{
}

/// The samples of all audio on a record, in order.
pub open spec fn played(steps: Seq<CodecStep>) -> Seq<u32>
    decreases steps.len(),
{
    if steps.len() == 0 {
        Seq::empty()
    } else {
        match steps.last() {
            CodecStep::Decode { outcome: Ok(audio), .. } => played(steps.drop_last())
                + audio.samples,
            _ => played(steps.drop_last()),
        }
    }
}

/// What a record plays: nothing at its start, and with each step the samples of the audio that a
/// packet decoded to, if it is such a step.
pub proof fn law_a_record_plays_its_audio(steps: Seq<CodecStep>, step: CodecStep)
    ensures
        played(Seq::<CodecStep>::empty()) == Seq::<u32>::empty(),
        played(steps.push(step)) == match step {
            CodecStep::Decode { outcome: Ok(audio), .. } => played(steps) + audio.samples,
            _ => played(steps),
        },
{
    assert(steps.push(step).drop_last() =~= steps);
}

/// The samples of rounds whose packets were decoded where they belong are what the record of the
/// codec plays.
proof fn lemma_rounds_play_their_record(rounds: Seq<Round>)
    ensures
        samples_of(rounds) == played(steps_of(rounds)),
    decreases rounds.len(),
{
    if rounds.len() > 0 {
        let fewer = rounds.drop_last();
        let round = rounds.last();
        assert(fewer.push(round) =~= rounds);
        lemma_rounds_play_their_record(fewer);
        law_every_piece_of_audio_is_played(fewer, round);
        law_the_codec_is_asked_in_order(fewer, round);
        match (round.read, round.decoded) {
            (Ok(Some(packet)), Some(outcome)) => {
                let step = CodecStep::Decode { packet, outcome };
                law_a_record_plays_its_audio(steps_of(fewer), step);
                law_a_record_plays_its_audio(steps_of(fewer).push(step), CodecStep::Reset);
            },
            _ => {},
        }
    }
}

/// The rounds of a decoder are what its container and its codec have on record. Each round read
/// what the container gave, in order. A packet was decoded if and only if it is of the decoder's
/// track. The samples that the decoder ever had are those of every packet that its codec decoded to
/// audio, in order and with none left out. Audio comes in whole frames.
pub proof fn law_a_decoder_plays_what_its_codec_gave(decoder: SymphoniaCDecoder)
    requires
        decoder.wf(),
    ensures
        reads(decoder.reader()).len() == decoder@.rounds.len(),
        forall|k: int|
            0 <= k < decoder@.rounds.len() ==> #[trigger] reads(decoder.reader())[k]
                == decoder@.rounds[k].read,
        codec_steps(decoder.codec()) == steps_of(decoder@.rounds),
        samples_of(decoder@.rounds) == played(codec_steps(decoder.codec())),
        forall|k: int|
            0 <= k < decoder@.rounds.len() ==> ((#[trigger] decoder@.rounds[k]).decoded is Some
                <==> (decoder@.rounds[k].read matches Ok(Some(packet)) && packet.track_id
                == decoder@.track_id)),
        forall|k: int|
            0 <= k < decoder@.rounds.len() ==> ((
            #[trigger] decoder@.rounds[k]).decoded matches Some(Ok(audio)) ==> if audio.channels
                == 0 {
                audio.samples.len() == 0
            } else {
                audio.samples.len() as int % audio.channels as int == 0
            }),
        decoder@.rounds.len() <= u64::MAX,
{
    law_rounds_are_the_record(decoder);
    lemma_rounds_play_their_record(decoder@.rounds);
    assert forall|k: int| 0 <= k < decoder@.rounds.len() implies ((
    #[trigger] decoder@.rounds[k]).decoded matches Some(Ok(audio)) ==> if audio.channels == 0 {
        audio.samples.len() == 0
    } else {
        audio.samples.len() as int % audio.channels as int == 0
    }) by {
        let round = decoder@.rounds[k];
        assert(round.belongs(decoder@.track_id) && round.whole());
    }
}

} // verus!
