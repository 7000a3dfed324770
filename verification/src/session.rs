//! What came of reading a medium, as lists: the rounds of a session and the samples they brought.

use vstd::prelude::*;
use crate::error::{ApiError, MediaError};
use crate::media::{Audio, CodecStep, DecodedAudio, Read};

verus! {

/// One round with a medium: what was read, and the outcome of its decoding if it was decoded.
pub struct Round {
    pub read: Read,
    pub decoded: Option<Result<Audio, MediaError>>,
}

/// What a round means to a session.
pub enum Verdict {
    /// The round brought nothing, and the next one follows: a packet of another track, a packet
    /// that is malformed, or a codec that had to be reset.
    Skip,
    /// The round brought audio.
    Play(Audio),
    /// The medium has ended.
    End,
    /// Reading or decoding failed for good.
    Fail(MediaError),
}

/// What to do on the outcome of a decode.
#[derive(Debug)]
pub enum Judgement {
    /// Hand the audio on.
    Play(DecodedAudio),
    /// Go on with the next packet.
    Skip,
    /// Reset the codec, and then go on with the next packet.
    ResetCodec,
    /// Give up.
    Fail(ApiError),
}

/// Decides what to do on the outcome of a decode.
pub fn judge(outcome: Result<DecodedAudio, MediaError>) -> (judgement: Judgement)
    ensures
        match outcome {
            Ok(audio) => judgement == Judgement::Play(audio),
            Err(MediaError::DecodeError(_)) => judgement is Skip,
            Err(MediaError::ResetRequired) => judgement is ResetCodec,
            Err(error) => judgement matches Judgement::Fail(failure) && failure.reports(error),
        },
{
    match outcome {
        Ok(audio) => Judgement::Play(audio),
        Err(MediaError::DecodeError(_)) => Judgement::Skip,
        Err(MediaError::ResetRequired) => Judgement::ResetCodec,
        Err(error) => Judgement::Fail(ApiError::from(error)),
    }
}

impl Round {
    /// Only packets of the session's track are decoded, and all of them are.
    pub open spec fn belongs(self, track_id: u32) -> bool {
        self.decoded is Some <==> (self.read matches Ok(Some(packet)) && packet.track_id
            == track_id)
    }

    /// What the round means to its session.
    pub open spec fn verdict(self) -> Verdict {
        match self.read {
            Err(error) => Verdict::Fail(error),
            Ok(None) => Verdict::End,
            Ok(Some(_)) => match self.decoded {
                None => Verdict::Skip,
                Some(Ok(audio)) => Verdict::Play(audio),
                Some(Err(MediaError::DecodeError(_))) => Verdict::Skip,
                Some(Err(MediaError::ResetRequired)) => Verdict::Skip,
                Some(Err(error)) => Verdict::Fail(error),
            },
        }
    }

    /// The samples of the round make up whole frames.
    pub open spec fn whole(self) -> bool {
        self.verdict() matches Verdict::Play(audio) ==> if audio.channels == 0 {
            audio.samples.len() == 0
        } else {
            audio.samples.len() % audio.channels as nat == 0
        }
    }

    /// The round neither ends the session nor fails it.
    pub open spec fn goes_on(self) -> bool {
        self.verdict() is Skip || self.verdict() is Play
    }

    /// The samples that the round brought.
    pub open spec fn samples(self) -> Seq<u32> {
        match self.verdict() {
            Verdict::Play(audio) => audio.samples,
            _ => Seq::empty(),
        }
    }

    /// What the round asked of the codec: to decode the packet, and to be reset if it said so.
    pub open spec fn steps(self) -> Seq<CodecStep> {
        match (self.read, self.decoded) {
            (Ok(Some(packet)), Some(outcome)) => {
                let decode = CodecStep::Decode { packet, outcome };
                if outcome matches Err(MediaError::ResetRequired) {
                    seq![decode, CodecStep::Reset]
                } else {
                    seq![decode]
                }
            },
            _ => Seq::empty(),
        }
    }
}

/// All that the rounds read.
pub open spec fn reads_of(rounds: Seq<Round>) -> Seq<Read> {
    rounds.map_values(|round: Round| round.read)
}

/// All that the rounds asked of the codec.
pub open spec fn steps_of(rounds: Seq<Round>) -> Seq<CodecStep>
    decreases rounds.len(),
{
    if rounds.len() == 0 {
        Seq::empty()
    } else {
        steps_of(rounds.drop_last()) + rounds.last().steps()
    }
}

/// The samples that the rounds brought, in order.
pub open spec fn samples_of(rounds: Seq<Round>) -> Seq<u32>
    decreases rounds.len(),
{
    if rounds.len() == 0 {
        Seq::empty()
    } else {
        samples_of(rounds.drop_last()) + rounds.last().samples()
    }
}

/// The sample rate after the rounds: that of the last audio they brought.
pub open spec fn rate_after(rate: u32, rounds: Seq<Round>) -> u32
    decreases rounds.len(),
{
    if rounds.len() == 0 {
        rate
    } else {
        match rounds.last().verdict() {
            Verdict::Play(audio) => audio.rate,
            _ => rate_after(rate, rounds.drop_last()),
        }
    }
}

/// The number of channels after the rounds: that of the last audio they brought.
pub open spec fn channels_after(channels: u32, rounds: Seq<Round>) -> u32
    decreases rounds.len(),
{
    if rounds.len() == 0 {
        channels
    } else {
        match rounds.last().verdict() {
            Verdict::Play(audio) => audio.channels as u32,
            _ => channels_after(channels, rounds.drop_last()),
        }
    }
}

/// All rounds but the last one went on.
pub open spec fn only_last_stops(rounds: Seq<Round>) -> bool {
    forall|k: int| 0 <= k < rounds.len() - 1 ==> (#[trigger] rounds[k]).goes_on()
}

/// The rounds came to the end of the medium.
pub open spec fn ended(rounds: Seq<Round>) -> bool {
    rounds.len() > 0 && rounds.last().verdict() is End
}

/// The rounds came to a failure.
pub open spec fn failed(rounds: Seq<Round>) -> bool {
    rounds.len() > 0 && rounds.last().verdict() is Fail
}

/// Two lists of rounds in a row bring the samples of the first and then those of the second.
pub proof fn lemma_samples_of_concat(first: Seq<Round>, second: Seq<Round>)
    ensures
        samples_of(first + second) == samples_of(first) + samples_of(second),
    decreases second.len(),
{
    if second.len() == 0 {
        assert(first + second =~= first);
        assert(samples_of(first) + samples_of(second) =~= samples_of(first));
    } else {
        assert((first + second).drop_last() =~= first + second.drop_last());
        assert((first + second).last() == second.last());
        lemma_samples_of_concat(first, second.drop_last());
        assert(samples_of(first + second) =~= samples_of(first) + samples_of(second));
    }
}

/// A round more asks of the codec what that round asks of it, and reads what that round reads.
pub proof fn lemma_steps_of_push(rounds: Seq<Round>, round: Round)
    ensures
        steps_of(rounds.push(round)) == steps_of(rounds) + round.steps(),
        reads_of(rounds.push(round)) == reads_of(rounds).push(round.read),
{
    assert(rounds.push(round).drop_last() =~= rounds);
    assert(reads_of(rounds.push(round)) =~= reads_of(rounds).push(round.read));
}

/// Two lists of rounds in a row ask of the codec what the first asks and then what the second asks.
pub proof fn lemma_steps_of_concat(first: Seq<Round>, second: Seq<Round>)
    ensures
        steps_of(first + second) == steps_of(first) + steps_of(second),
    decreases second.len(),
{
    if second.len() == 0 {
        assert(first + second =~= first);
        assert(steps_of(first) + steps_of(second) =~= steps_of(first));
    } else {
        assert((first + second).drop_last() =~= first + second.drop_last());
        assert((first + second).last() == second.last());
        lemma_steps_of_concat(first, second.drop_last());
        assert(steps_of(first + second) =~= steps_of(first) + steps_of(second));
    }
}

/// The sample rate and the number of channels after two lists of rounds in a row are those after
/// the second, from where the first left them.
pub proof fn lemma_format_after_concat(
    rate: u32,
    channels: u32,
    first: Seq<Round>,
    second: Seq<Round>,
)
    ensures
        rate_after(rate, first + second) == rate_after(rate_after(rate, first), second),
        channels_after(channels, first + second) == channels_after(
            channels_after(channels, first),
            second,
        ),
    decreases second.len(),
{
    if second.len() == 0 {
        assert(first + second =~= first);
    } else {
        assert((first + second).drop_last() =~= first + second.drop_last());
        assert((first + second).last() == second.last());
        lemma_format_after_concat(rate, channels, first, second.drop_last());
    }
}

/// Rounds that brought no audio leave the sample rate and the number of channels as they were and
/// bring no samples.
pub proof fn lemma_silent_rounds(rate: u32, channels: u32, rounds: Seq<Round>)
    requires
        forall|k: int| 0 <= k < rounds.len() ==> !((#[trigger] rounds[k]).verdict() is Play),
    ensures
        samples_of(rounds) == Seq::<u32>::empty(),
        rate_after(rate, rounds) == rate,
        channels_after(channels, rounds) == channels,
    decreases rounds.len(),
{
    if rounds.len() > 0 {
        lemma_silent_rounds(rate, channels, rounds.drop_last());
        assert(!(rounds[rounds.len() - 1].verdict() is Play));
        assert(samples_of(rounds) =~= Seq::<u32>::empty());
    }
}

} // verus!
