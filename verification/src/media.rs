//! What the crate takes from Symphonia: the types that it reads and the calls that it makes.
//!
//! What a call brings back depends on the medium that is read, so no contract here foretells it.
//! The contracts keep the record instead: a [`PacketReader`] stands for a list of all that was
//! read from it, and a [`Codec`] for a list of all that was asked of it.
//!
//! Symphonia may panic on a malformed medium, which no contract can leave out. Such a panic passes
//! through this crate; whoever catches it hands it back as an outcome that is `None`.

use vstd::prelude::*;
use crate::error::MediaError;

verus! {

/// A piece of encoded audio.
pub type MediaPacket = symphonia::core::packet::Packet;

/// A track of a container.
pub type MediaTrack = symphonia::core::formats::Track;

/// What a container says of the codec of a track.
pub type TrackParameters = symphonia::core::codecs::CodecParameters;

/// What a container says of the codec of an audio track.
pub type AudioParameters = symphonia::core::codecs::audio::AudioCodecParameters;

/// A set of audio channels.
pub type ChannelSet = symphonia::core::audio::Channels;

/// A hint about the format of a medium.
pub type FormatHint = symphonia::core::formats::probe::Hint;

/// The bytes of a medium.
pub type MediaStream = symphonia::core::io::MediaSourceStream<'static>;

/// The audio of a packet in the sample format of its codec.
pub type AudioRef<'a> = symphonia::core::audio::GenericAudioBufferRef<'a>;

/// The declared outside type `Timestamp`; nothing is said of what it holds.
#[verifier::external_type_specification]
#[verifier::external_body]
pub struct ExTimestamp(symphonia::core::units::Timestamp);

/// The declared outside type `Duration`; nothing is said of what it holds.
#[verifier::external_type_specification]
#[verifier::external_body]
pub struct ExDuration(symphonia::core::units::Duration);

/// The declared outside type `TimeBase`; nothing is said of what it holds.
#[verifier::external_type_specification]
#[verifier::external_body]
pub struct ExTimeBase(symphonia::core::units::TimeBase);

/// The declared outside type `Packet`, with its fields.
#[verifier::external_type_specification]
pub struct ExPacket(symphonia::core::packet::Packet);

/// The declared outside type `TrackFlags`; nothing is said of what it holds.
#[verifier::external_type_specification]
#[verifier::external_body]
pub struct ExTrackFlags(symphonia::core::formats::TrackFlags);

/// The declared outside type `Track`, with its fields.
#[verifier::external_type_specification]
pub struct ExTrack(symphonia::core::formats::Track);

/// The declared outside type `CodecParameters`, with its variants.
#[verifier::external_type_specification]
pub struct ExCodecParameters(symphonia::core::codecs::CodecParameters);

/// The declared outside type `AudioCodecParameters`, with its fields.
#[verifier::external_type_specification]
pub struct ExAudioCodecParameters(symphonia::core::codecs::audio::AudioCodecParameters);

/// The declared outside type `VideoCodecParameters`; nothing is said of what it holds.
#[verifier::external_type_specification]
#[verifier::external_body]
pub struct ExVideoCodecParameters(symphonia::core::codecs::video::VideoCodecParameters);

/// The declared outside type `SubtitleCodecParameters`; nothing is said of what it holds.
#[verifier::external_type_specification]
#[verifier::external_body]
pub struct ExSubtitleCodecParameters(symphonia::core::codecs::subtitle::SubtitleCodecParameters);

/// The declared outside type `AudioCodecId`; nothing is said of what it holds.
#[verifier::external_type_specification]
#[verifier::external_body]
pub struct ExAudioCodecId(symphonia::core::codecs::audio::AudioCodecId);

/// The declared outside type `CodecProfile`; nothing is said of what it holds.
#[verifier::external_type_specification]
#[verifier::external_body]
pub struct ExCodecProfile(symphonia::core::codecs::CodecProfile);

/// The declared outside type `VerificationCheck`; nothing is said of what it holds.
#[verifier::external_type_specification]
#[verifier::external_body]
pub struct ExVerificationCheck(symphonia::core::codecs::audio::VerificationCheck);

/// The declared outside type `SampleFormat`; nothing is said of what it holds.
#[verifier::external_type_specification]
#[verifier::external_body]
pub struct ExSampleFormat(symphonia::core::audio::sample::SampleFormat);

/// The declared outside type `Channels`, with its variants.
#[verifier::external_type_specification]
pub struct ExChannels(symphonia::core::audio::Channels);

/// The declared outside type `Position`; nothing is said of what it holds.
#[verifier::external_type_specification]
#[verifier::external_body]
pub struct ExPosition(symphonia::core::audio::Position);

/// The declared outside type `ChannelLabel`; nothing is said of what it holds.
#[verifier::external_type_specification]
#[verifier::external_body]
pub struct ExChannelLabel(symphonia::core::audio::ChannelLabel);

/// The declared outside type `Hint`; what it holds goes by the name [`hint_extension`].
#[verifier::external_type_specification]
#[verifier::external_body]
pub struct ExHint(symphonia::core::formats::probe::Hint);

/// The declared outside type `MediaSourceStream`; nothing is said of what it holds.
#[verifier::external_type_specification]
#[verifier::external_body]
pub struct ExMediaSourceStream<'s>(symphonia::core::io::MediaSourceStream<'s>);

/// The declared outside type `GenericAudioBufferRef`; what it holds goes by the names
/// [`audio_rate`], [`audio_channels`] and [`audio_samples`].
#[verifier::external_type_specification]
#[verifier::external_body]
pub struct ExAudioBufferRef<'a>(symphonia::core::audio::GenericAudioBufferRef<'a>);

/// The container of a medium, from which packets are read one after the other.
///
/// A trait object has no declaration of its own here, so this struct holds it. What it stands for
/// goes by the names [`reads`], [`probed_with`] and [`audio_track`].
#[verifier::external_body]
pub struct PacketReader {
    inner: Box<dyn symphonia::core::formats::FormatReader>,
}

/// A decoder of packets.
///
/// A trait object has no declaration of its own here, so this struct holds it. What it stands for
/// goes by the names [`codec_steps`] and [`made_with`].
#[verifier::external_body]
pub struct Codec {
    inner: Box<dyn symphonia::core::codecs::audio::AudioDecoder>,
}

/// The audio that a packet decoded to.
pub struct Audio {
    /// The sample rate in Hertz.
    pub rate: u32,
    /// The number of channels.
    pub channels: usize,
    /// The samples as bit patterns of 32-bit floats, frame by frame.
    pub samples: Seq<u32>,
}

/// The audio that a packet decoded to, as it is handed on.
#[derive(Debug)]
pub struct DecodedAudio {
    pub rate: u32,
    pub channels: usize,
    pub samples: Vec<u32>,
}

impl View for DecodedAudio {
    type V = Audio;

    open spec fn view(&self) -> Audio {
        Audio { rate: self.rate, channels: self.channels, samples: self.samples@ }
    }
}

/// One thing that was asked of a codec.
pub enum CodecStep {
    /// A packet was to be decoded, with this outcome.
    Decode { packet: MediaPacket, outcome: Result<Audio, MediaError> },
    /// The codec was reset.
    Reset,
}

/// What one read of the next packet brought: a packet, the end of the medium, or an error.
pub type Read = Result<Option<MediaPacket>, MediaError>;

/// The file extension that a hint holds.
pub uninterp spec fn hint_extension(hint: FormatHint) -> Option<Seq<char>>;

/// All that was read from a reader since it was made, in order.
pub uninterp spec fn reads(reader: PacketReader) -> Seq<Read>;

/// The file extension that the medium of a reader was probed with.
pub uninterp spec fn probed_with(reader: PacketReader) -> Option<Seq<char>>;

/// The default audio track of a reader.
pub uninterp spec fn audio_track(reader: PacketReader) -> Option<MediaTrack>;

/// All that was asked of a codec since it was made, in order.
pub uninterp spec fn codec_steps(codec: Codec) -> Seq<CodecStep>;

/// The parameters that a codec was made with.
pub uninterp spec fn made_with(codec: Codec) -> AudioParameters;

/// The number of channels in a set of channels.
pub uninterp spec fn channel_count(channels: ChannelSet) -> usize;

/// The sample rate of an audio buffer.
pub uninterp spec fn audio_rate(audio: AudioRef) -> u32;

/// The number of channels of an audio buffer.
pub uninterp spec fn audio_channels(audio: AudioRef) -> usize;

/// The samples of an audio buffer, each converted to a 32-bit float and taken as its bit pattern,
/// all samples of a frame before those of the next.
pub uninterp spec fn audio_samples(audio: AudioRef) -> Seq<u32>;

/// All that is kept of an audio buffer.
pub open spec fn audio_of(audio: AudioRef) -> Audio {
    Audio {
        rate: audio_rate(audio),
        channels: audio_channels(audio),
        samples: audio_samples(audio),
    }
}

/// The outcome of a decode with the audio buffer taken by what is kept of it.
pub open spec fn outcome_of(outcome: Result<AudioRef, MediaError>) -> Result<Audio, MediaError> {
    match outcome {
        Ok(audio) => Ok(audio_of(audio)),
        Err(error) => Err(error),
    }
}

/// The outcome of a decode with the audio taken by its view.
pub open spec fn outcome_view(outcome: Result<DecodedAudio, MediaError>) -> Result<
    Audio,
    MediaError,
> {
    match outcome {
        Ok(audio) => Ok(audio@),
        Err(error) => Err(error),
    }
}

/// `Hint::new` of Symphonia: a hint without a file extension.
pub assume_specification[ symphonia::core::formats::probe::Hint::new ]() -> (hint:
    symphonia::core::formats::probe::Hint)
    ensures
        hint_extension(hint) == None::<Seq<char>>,
;

/// `Hint::with_extension` of Symphonia: the hint now holds this file extension, and the hint
/// itself is handed back.
pub assume_specification<'a>[ symphonia::core::formats::probe::Hint::with_extension ](
    hint: &'a mut symphonia::core::formats::probe::Hint,
    extension: &str,
) -> (same: &'a mut symphonia::core::formats::probe::Hint)
    ensures
        hint_extension(*same) == Some(extension@),
        *final(hint) == *final(same),
;

/// `Channels::count` of Symphonia: the number of channels in the set. A set of positioned channels
/// has one channel for each of the positions that it names, at most 64; that number has no other
/// statement here.
pub assume_specification[ symphonia::core::audio::Channels::count ](
    channels: &symphonia::core::audio::Channels,
) -> (count: usize)
    ensures
        count == channel_count(*channels),
        match *channels {
            symphonia::core::audio::Channels::Positioned(_) => count <= 64,
            symphonia::core::audio::Channels::Discrete(n) => count == n,
            symphonia::core::audio::Channels::Ambisonic(n) => count == (1 + n) * (1 + n),
            symphonia::core::audio::Channels::Custom(labels) => count == labels@.len(),
            symphonia::core::audio::Channels::None => count == 0,
            _ => true,
        },
;

/// `Probe::probe` of Symphonia, on its default probe and with default options: finds the container
/// format of a medium. Nothing has been read from a reader that comes back. Which reader or which
/// error comes back depends on the medium and is not stated.
#[verifier::external_body]
fn probe_format(hint: &FormatHint, stream: MediaStream) -> (reader: Result<
    PacketReader,
    MediaError,
>)
    ensures
        reader matches Ok(r) ==> reads(r) == Seq::<Read>::empty() && probed_with(r)
            == hint_extension(*hint),
{
    symphonia::default::get_probe().probe(
        hint,
        stream,
        Default::default(),
        Default::default(),
    ).map(|inner| PacketReader { inner })
}

/// `probed` is what [`probe_format`] brought when it was called with this hint and this stream.
pub closed spec fn probes_to(
    hint: FormatHint,
    stream: MediaStream,
    probed: Result<PacketReader, MediaError>,
) -> bool {
    call_ensures(probe_format, (&hint, stream), probed)
}

/// Finds the container format of a medium.
pub(crate) fn probe_medium(hint: &FormatHint, stream: MediaStream) -> (probed: Result<
    PacketReader,
    MediaError,
>)
    ensures
        probes_to(*hint, stream, probed),
        probed matches Ok(r) ==> reads(r) == Seq::<Read>::empty() && probed_with(r)
            == hint_extension(*hint),
{
    probe_format(hint, stream)
}

/// `FormatReader::default_track` of Symphonia for audio tracks.
#[verifier::external_body]
pub(crate) fn default_track(reader: &PacketReader) -> (track: Option<&MediaTrack>)
    ensures
        match track {
            Some(t) => audio_track(*reader) == Some(*t),
            None => audio_track(*reader) == None::<MediaTrack>,
        },
{
    reader.inner.default_track(symphonia::core::formats::TrackType::Audio)
}

/// `FormatReader::next_packet` of Symphonia: reads the next packet of the container, of whatever
/// track. What is read depends on the medium and is not stated; it joins the record.
#[verifier::external_body]
pub(crate) fn next_packet(reader: &mut PacketReader) -> (read: Read)
    ensures
        reads(*final(reader)) == reads(*old(reader)).push(read),
        probed_with(*final(reader)) == probed_with(*old(reader)),
{
    reader.inner.next_packet()
}

/// `CodecRegistry::make_audio_decoder` of Symphonia, on its default registry and with default
/// options: makes a decoder for the parameters, of which nothing has been asked yet. Whether there
/// is one depends on the codecs that Symphonia was built with and is not stated.
#[verifier::external_body]
fn make_audio_decoder(params: &AudioParameters) -> (codec: Result<
    Codec,
    MediaError,
>)
    ensures
        codec matches Ok(c) ==> codec_steps(c) == Seq::<CodecStep>::empty() && made_with(c)
            == *params,
{
    symphonia::default::get_codecs().make_audio_decoder(params, &Default::default()).map(
        |inner| Codec { inner },
    )
}

/// `codec` is what [`make_audio_decoder`] brought when it was called with these parameters.
pub closed spec fn codes_to(params: AudioParameters, codec: Result<Codec, MediaError>) -> bool {
    call_ensures(make_audio_decoder, (&params,), codec)
}

/// Makes a decoder for the parameters of a track.
pub(crate) fn make_codec(params: &AudioParameters) -> (codec: Result<Codec, MediaError>)
    ensures
        codes_to(*params, codec),
        codec matches Ok(c) ==> codec_steps(c) == Seq::<CodecStep>::empty() && made_with(c)
            == *params,
{
    make_audio_decoder(params)
}

/// `AudioDecoder::decode` of Symphonia: decodes a packet. What it decodes to is not stated; the
/// request joins the record with its outcome.
#[verifier::external_body]
pub(crate) fn decode<'a>(codec: &'a mut Codec, packet: &MediaPacket) -> (outcome: Result<
    AudioRef<'a>,
    MediaError,
>)
    ensures
        codec_steps(*final(codec)) == codec_steps(*old(codec)).push(
            CodecStep::Decode { packet: *packet, outcome: outcome_of(outcome) },
        ),
        made_with(*final(codec)) == made_with(*old(codec)),
{
    codec.inner.decode(packet)
}

/// `AudioDecoder::reset` of Symphonia: makes the decoder ready for a packet that does not follow on
/// the last one. The request joins the record.
#[verifier::external_body]
pub(crate) fn reset(codec: &mut Codec)
    ensures
        codec_steps(*final(codec)) == codec_steps(*old(codec)).push(CodecStep::Reset),
        made_with(*final(codec)) == made_with(*old(codec)),
{
    codec.inner.reset()
}

/// `AudioSpec::rate` of Symphonia, of the specification of an audio buffer.
#[verifier::external_body]
pub(crate) fn buffer_rate(audio: &AudioRef<'_>) -> (rate: u32)
    ensures
        rate == audio_rate(*audio),
{
    audio.spec().rate()
}

/// `Channels::count` of Symphonia, of the specification of an audio buffer. A buffer has one plane
/// of samples for each channel, so that one without channels holds no samples.
#[verifier::external_body]
pub(crate) fn buffer_channels(audio: &AudioRef<'_>) -> (count: usize)
    ensures
        count == audio_channels(*audio),
        count == 0 ==> audio_samples(*audio) == Seq::<u32>::empty(),
{
    audio.spec().channels().count()
}

/// `GenericAudioBufferRef::copy_to` of Symphonia into a buffer of 32-bit floats, and that buffer's
/// samples in interleaved order as bit patterns. All planes are of one length, so that the samples
/// make up whole frames. A buffer without channels cannot be made, so that such audio is left out.
#[verifier::external_body]
pub(crate) fn interleaved_samples(audio: &AudioRef<'_>) -> (samples: Vec<u32>)
    requires
        audio_channels(*audio) > 0,
    ensures
        samples@ == audio_samples(*audio),
        samples@.len() % audio_channels(*audio) as nat == 0,
{
    let mut converted = symphonia::core::audio::GenericAudioBuffer::new(
        symphonia::core::audio::sample::SampleFormat::F32,
        audio.spec().clone(),
        audio.frames(),
    );
    converted.resize_uninit(audio.frames());
    match &mut converted {
        symphonia::core::audio::GenericAudioBuffer::F32(floats) => {
            audio.copy_to(floats);
            symphonia::core::audio::Audio::iter_interleaved(floats).map(|s| s.to_bits()).collect()
        },
        _ => Vec::new(),
    }
}

/// Takes out of an audio buffer all that is kept of it.
pub fn read_audio(audio: &AudioRef<'_>) -> (decoded: DecodedAudio)
    ensures
        decoded@ == audio_of(*audio),
        decoded.rate == audio_rate(*audio),
        decoded.channels == audio_channels(*audio),
        decoded.samples@ == audio_samples(*audio),
        decoded.channels > 0 ==> decoded.samples@.len() % decoded.channels as nat == 0,
        decoded.channels == 0 ==> decoded.samples@.len() == 0,
{
    let rate = buffer_rate(audio);
    let channels = buffer_channels(audio);
    let samples = if channels == 0 {
        Vec::new()
    } else {
        interleaved_samples(audio)
    };
    DecodedAudio { rate, channels, samples }
}

/// Decodes a packet and takes the audio out of the codec.
pub fn decode_packet(codec: &mut Codec, packet: &MediaPacket) -> (outcome: Result<
    DecodedAudio,
    MediaError,
>)
    ensures
        codec_steps(*final(codec)) == codec_steps(*old(codec)).push(
            CodecStep::Decode { packet: *packet, outcome: outcome_view(outcome) },
        ),
        made_with(*final(codec)) == made_with(*old(codec)),
        outcome matches Ok(audio) ==> {
            &&& audio.channels > 0 ==> audio.samples@.len() % audio.channels as nat == 0
            &&& audio.channels == 0 ==> audio.samples@.len() == 0
        },
{
    match decode(codec, packet) {
        Ok(audio) => Ok(read_audio(&audio)),
        Err(error) => Err(error),
    }
}

/// What comes of finding a container and of making a codec is what came of asking Symphonia for
/// them, and of nothing else.
proof fn law_symphonia_was_asked(
    hint: FormatHint,
    stream: MediaStream,
    probed: Result<PacketReader, MediaError>,
    params: AudioParameters,
    codec: Result<Codec, MediaError>,
)
    requires
        probes_to(hint, stream, probed),
        codes_to(params, codec),
    ensures
        call_ensures(probe_format, (&hint, stream), probed),
        call_ensures(make_audio_decoder, (&params,), codec),
        probed matches Ok(reader) ==> reads(reader).len() == 0 && probed_with(reader)
            == hint_extension(hint),
        codec matches Ok(made) ==> codec_steps(made).len() == 0 && made_with(made) == params,
{
}

} // verus!
