//! Opening a file: when it succeeds, what the decoder then knows, and what a failure says.

use vstd::prelude::*;
use vstd::utf8::{encode_utf8, valid_utf8};
use crate::api::{open_file_impl, opens, symphonia_c_open_file};
use crate::decoder::{
    SymphoniaCDecoder, TrackSetup, opened, opened_coded, opened_file, opened_probed, track_setup,
};
use crate::error::{ApiError, MediaError};
use crate::media::{
    AudioParameters, Codec, CodecStep, FormatHint, MediaStream, MediaTrack, PacketReader, Read,
    TrackParameters, audio_track, channel_count, codec_steps, codes_to, hint_extension, made_with,
    probed_with, probes_to, reads,
};
use crate::message::{CMessage, message_bytes};
use crate::path::is_extension_of;

verus! {

/// A track is refused only where there is none, or where its parameters are not those of audio,
/// whatever else it says of itself. What is taken from a track is what it says: its number, and its
/// sample rate, channels and length, every one as it stands, or 0 where it is not said.
pub proof fn law_tracks_are_taken_at_their_word<'a>(
    track: Option<&'a MediaTrack>,
    result: Result<TrackSetup<'a>, ApiError>,
)
    requires
        call_ensures(track_setup, (track,), result),
    ensures
        result is Ok <==> (track matches Some(t) && t.codec_params matches Some(
            TrackParameters::Audio(_),
        )),
        track is None ==> (result matches Err(error) && error.status == -4 && error.message@
            == "no audio track found"@),
        track matches Some(t) && !(t.codec_params matches Some(TrackParameters::Audio(_)))
            ==> (result matches Err(error) && error.status == -4 && error.message@
            == "audio track is missing codec parameters"@),
        result matches Ok(setup) ==> {
            let t = *track->0;
            let p = *setup.params;
            &&& t.codec_params == Some(TrackParameters::Audio(p))
            &&& setup.track_id == t.id
            &&& p.sample_rate matches Some(rate) ==> setup.sample_rate == rate
            &&& p.sample_rate is None ==> setup.sample_rate == 0
            &&& p.channels matches Some(set) ==> setup.channels == channel_count(set) as u32
            &&& p.channels is None ==> setup.channels == 0
            &&& t.num_frames matches Some(frames) ==> setup.total_frames == frames
            &&& t.num_frames is None ==> setup.total_frames == 0
        },
{
}

/// A container for whose track there is a codec opens, whatever the track says of itself. The
/// decoder reads that container and asks that codec. It knows of the track what the track says:
/// every number as it stands, or 0 where it is not said. Nothing has been read yet, nothing is
/// pending, and there is no message. Where there is no codec, the failure reports why.
pub proof fn law_a_container_with_a_codec_opens(
    format: PacketReader,
    codec: Result<Codec, MediaError>,
    track: MediaTrack,
    params: AudioParameters,
    result: Result<SymphoniaCDecoder, ApiError>,
)
    requires
        opened_coded(format, codec, result),
        audio_track(format) == Some(track),
        track.codec_params == Some(TrackParameters::Audio(params)),
        codec matches Ok(c) ==> made_with(c) == params,
    ensures
        codec matches Err(cause) ==> (result matches Err(error) && error.reports(cause)),
        codec matches Ok(c) ==> {
            &&& result matches Ok(decoder)
            &&& decoder.wf()
            &&& decoder.reader() == format
            &&& decoder.codec() == c
            &&& decoder@.track_id == track.id
            &&& params.sample_rate matches Some(rate) ==> decoder@.sample_rate == rate
            &&& params.sample_rate is None ==> decoder@.sample_rate == 0
            &&& params.channels matches Some(set) ==> decoder@.channels == channel_count(set) as u32
            &&& params.channels is None ==> decoder@.channels == 0
            &&& track.num_frames matches Some(frames) ==> decoder@.total_frames == frames
            &&& track.num_frames is None ==> decoder@.total_frames == 0
            &&& decoder@.rounds.len() == 0
            &&& decoder@.held.len() == 0
            &&& decoder@.held_taken == 0
            &&& decoder@.pending.len() == 0
            &&& !decoder@.eof
            &&& decoder@.last_error.len() == 0
        },
{
}

/// The same of the function that opens a container.
pub proof fn law_open_coded(
    format: PacketReader,
    codec: Result<Codec, MediaError>,
    track: MediaTrack,
    params: AudioParameters,
    result: Result<SymphoniaCDecoder, ApiError>,
)
    requires
        call_ensures(SymphoniaCDecoder::open_coded, (format, codec), result),
        reads(format) == Seq::<Read>::empty(),
        audio_track(format) == Some(track),
        track.codec_params == Some(TrackParameters::Audio(params)),
        codec matches Ok(c) ==> codec_steps(c) == Seq::<CodecStep>::empty() && made_with(c)
            == params,
    ensures
        opened_coded(format, codec, result),
        codec is Ok <==> result is Ok,
        result matches Ok(decoder) ==> decoder.wf() && decoder@.track_id == track.id,
{
}

/// What comes of opening a medium follows from what came of probing it. A failed probe is reported.
/// A container without a default audio track, and one whose track has no audio parameters, are
/// refused; no other container is. For the parameters of the track a codec is asked for, and the
/// rest follows from what came of that.
pub proof fn law_only_tracks_without_audio_are_refused(
    probed: Result<PacketReader, MediaError>,
    result: Result<SymphoniaCDecoder, ApiError>,
)
    requires
        opened_probed(probed, result),
    ensures
        probed matches Err(cause) ==> (result matches Err(error) && error.reports(cause)),
        probed matches Ok(format) ==> match audio_track(format) {
            None => result matches Err(error) && error.status == -4 && error.message@
                == "no audio track found"@,
            Some(track) => match track.codec_params {
                Some(TrackParameters::Audio(params)) => exists|codec: Result<Codec, MediaError>|
                    #[trigger] codes_to(params, codec) && opened_coded(format, codec, result) && (
                    codec matches Ok(c) ==> made_with(c) == params),
                _ => result matches Err(error) && error.status == -4 && error.message@
                    == "audio track is missing codec parameters"@,
            },
        },
{
    if let Ok(format) = probed {
        if let Some(track) = audio_track(format) {
            if let Some(TrackParameters::Audio(params)) = track.codec_params {
                let codec = choose|codec: Result<Codec, MediaError>| #[trigger]
                    codes_to(params, codec) && opened_coded(format, codec, result);
                assert(codes_to(params, codec) && opened_coded(format, codec, result));
                assert(codec matches Ok(c) ==> made_with(c) == params);
            }
        }
    }
}

/// The functions that open a medium do so by what came of probing it, with the hint that they were
/// given.
pub proof fn law_opening_goes_by_the_probe(
    probed: Result<PacketReader, MediaError>,
    result: Result<SymphoniaCDecoder, ApiError>,
    hint: &FormatHint,
    stream: MediaStream,
    streamed: Result<SymphoniaCDecoder, ApiError>,
)
    requires
        call_ensures(SymphoniaCDecoder::open_probed, (probed,), result),
        probed matches Ok(format) ==> reads(format) == Seq::<Read>::empty(),
        call_ensures(SymphoniaCDecoder::open_stream, (hint, stream), streamed),
    ensures
        opened_probed(probed, result),
        opened(*hint, stream, streamed),
        exists|brought: Result<PacketReader, MediaError>| #[trigger]
            probes_to(*hint, stream, brought) && opened_probed(brought, streamed),
        streamed matches Ok(decoder) ==> probed_with(decoder.reader()) == hint_extension(*hint)
            && decoder.wf(),
{
}

/// A medium opens by what came of probing it, as far as that is said of it anywhere.
pub proof fn law_opened_media_were_probed(
    hint: FormatHint,
    stream: MediaStream,
    result: Result<SymphoniaCDecoder, ApiError>,
)
    requires
        opened(hint, stream, result),
    ensures
        exists|brought: Result<PacketReader, MediaError>| #[trigger]
            probes_to(hint, stream, brought) && opened_probed(brought, result),
        result matches Ok(decoder) ==> probed_with(decoder.reader()) == hint_extension(hint),
{
}

/// A file that cannot be opened for reading is an I/O error. One that can is opened as a medium,
/// with a hint that is the extension of its name.
pub proof fn law_files_open_as_media(
    path: Seq<char>,
    file: Result<MediaStream, std::io::Error>,
    result: Result<SymphoniaCDecoder, ApiError>,
)
    requires
        opened_file(path, file, result),
    ensures
        file matches Err(cause) ==> (result matches Err(error) && error.reports_io(cause)),
        file matches Ok(stream) ==> exists|hint: FormatHint|
            is_extension_of(hint_extension(hint), path) && #[trigger] opened(hint, stream, result),
{
}

/// The file that is opened is the one of the path, by the bytes of the path.
pub proof fn law_the_file_of_the_path_is_opened<
    F: FnOnce(&str) -> Result<MediaStream, std::io::Error>,
>(path: Option<&[u8]>, open: F, result: Result<SymphoniaCDecoder, ApiError>)
    requires
        opens(path, open, result),
    ensures
        path is Some,
        valid_utf8(path->0@),
        exists|text: &str, file: Result<MediaStream, std::io::Error>|
            encode_utf8(text@) == path->0@ && #[trigger] call_ensures(open, (text,), file)
                && opened_file(text@, file, result),
{
}

/// The method that opens a file opens it as a medium, by what its opener brought.
pub proof fn law_open_file<F: FnOnce(&str) -> Result<MediaStream, std::io::Error>>(
    path: &str,
    open: F,
    result: Result<SymphoniaCDecoder, ApiError>,
)
    requires
        call_ensures(SymphoniaCDecoder::open_file::<F>, (path, open), result),
    ensures
        exists|file: Result<MediaStream, std::io::Error>| #[trigger]
            call_ensures(open, (path,), file) && opened_file(path@, file, result),
{
}

/// Opening a file through the C interface. Missing arguments and a path that is no text are refused
/// by -1 and a message that says which. Otherwise the file of the path is opened, and what comes of
/// that is what the caller gets: the decoder, status 0 and no message, or else no decoder, and the
/// status and the message of the failure.
pub proof fn law_c_open_file<F: FnOnce(&str) -> Result<MediaStream, std::io::Error>>(
    path: Option<&[u8]>,
    slot: Option<&mut Option<SymphoniaCDecoder>>,
    message: &mut CMessage,
    open: F,
    status: i32,
)
    requires
        call_ensures(symphonia_c_open_file::<F>, (path, slot, message, open), status),
    ensures
        match slot {
            None => status == -1 && final(message)@ == message_bytes(
                "out_decoder must not be null"@,
            ),
            Some(place) => match path {
                None => status == -1 && *final(place) is None && final(message)@ == message_bytes(
                    "path must not be null"@,
                ),
                Some(bytes) => if !valid_utf8(bytes@) {
                    status == -1 && *final(place) is None && final(message)@ == message_bytes(
                        "path must be valid UTF-8"@,
                    )
                } else {
                    match *final(place) {
                        Some(decoder) => {
                            &&& status == 0
                            &&& final(message)@.len() == 0
                            &&& opens(path, open, Ok(decoder))
                        },
                        None => exists|error: ApiError|
                            {
                                &&& #[trigger] opens(path, open, Err(error))
                                &&& status == error.status
                                &&& final(message)@ == message_bytes(error.message@)
                            },
                    }
                },
            },
        },
{
}

/// The same of the function behind it, which leaves the message of a failure to its caller.
pub proof fn law_open_file_impl<F: FnOnce(&str) -> Result<MediaStream, std::io::Error>>(
    path: Option<&[u8]>,
    slot: Option<&mut Option<SymphoniaCDecoder>>,
    message: &mut CMessage,
    open: F,
    result: Result<(), ApiError>,
)
    requires
        call_ensures(open_file_impl::<F>, (path, slot, message, open), result),
    ensures
        result is Ok ==> final(message)@.len() == 0,
        result is Err ==> final(message)@ == old(message)@,
        match slot {
            None => result matches Err(error) && error.status == -1 && error.message@
                == "out_decoder must not be null"@,
            Some(place) => match path {
                None => *final(place) is None && (result matches Err(error) && error.status == -1
                    && error.message@ == "path must not be null"@),
                Some(bytes) => if !valid_utf8(bytes@) {
                    *final(place) is None && (result matches Err(error) && error.status == -1
                        && error.message@ == "path must be valid UTF-8"@)
                } else {
                    match *final(place) {
                        Some(decoder) => result is Ok && opens(path, open, Ok(decoder)),
                        None => result matches Err(error) && opens(path, open, Err(error)),
                    }
                },
            },
        },
{
}

} // verus!
