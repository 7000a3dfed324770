//! Failures: their statuses, their messages and where the messages go.

use std::io::{Cursor, Error, ErrorKind};
use symphonia_c::api::{
    decode_file_status, open_file_status, read_f32_status, set_decoder_or_global_error,
};
use symphonia_c::buffer::empty_audio_buffer;
use symphonia_c::decoder::track_setup;
use symphonia_c::error::{ApiError, MediaError};
use symphonia_c::media::{
    AudioParameters, ChannelSet, DecodedAudio, MediaStream, MediaTrack, TrackParameters,
};
use symphonia_c::message::{CMessage, c_string};
use symphonia_c::path::{c_path, format_hint};
use symphonia_c::session::{Judgement, judge};
use symphonia_c::{
    SYMPHONIA_C_DECODE_ERROR, SYMPHONIA_C_INTERNAL_ERROR, SYMPHONIA_C_INVALID_ARGUMENT,
    SYMPHONIA_C_IO_ERROR, SYMPHONIA_C_LIMIT_ERROR, SYMPHONIA_C_OK, SYMPHONIA_C_UNSUPPORTED,
    SymphoniaCDecoder, symphonia_c_decode_file_f32, symphonia_c_last_error, symphonia_c_open_file,
};

fn stream_of(bytes: Vec<u8>) -> MediaStream {
    MediaStream::new(Box::new(Cursor::new(bytes)), Default::default())
}

fn text(message: &CMessage) -> String {
    let bytes = symphonia_c_last_error(None, message);
    String::from_utf8(bytes[..bytes.len() - 1].to_vec()).unwrap()
}

fn missing(_: &str) -> Result<MediaStream, Error> {
    Err(Error::new(ErrorKind::NotFound, "no such tune"))
}

fn not_called(_: &str) -> Result<MediaStream, Error> {
    panic!("the file must not be opened")
}

fn noise(_: &str) -> Result<MediaStream, Error> {
    Ok(stream_of(vec![0x11; 5000]))
}

#[test]
fn opening_checks_its_arguments() {
    let mut global = c_string("");
    let status = symphonia_c_open_file(Some(b"a.wav"), None, &mut global, not_called);
    assert_eq!(status, SYMPHONIA_C_INVALID_ARGUMENT);
    assert_eq!(text(&global), "out_decoder must not be null");

    let mut slot = None;
    let status = symphonia_c_open_file(None, Some(&mut slot), &mut global, not_called);
    assert_eq!(status, SYMPHONIA_C_INVALID_ARGUMENT);
    assert_eq!(text(&global), "path must not be null");
    assert!(slot.is_none());

    let status =
        symphonia_c_open_file(Some(b"\xff.wav"), Some(&mut slot), &mut global, not_called);
    assert_eq!(status, SYMPHONIA_C_INVALID_ARGUMENT);
    assert_eq!(text(&global), "path must be valid UTF-8");
    assert!(slot.is_none());
}

#[test]
fn decoding_checks_its_arguments() {
    let mut global = c_string("");
    let status = symphonia_c_decode_file_f32(Some(b"a.wav"), None, &mut global, not_called);
    assert_eq!(status, SYMPHONIA_C_INVALID_ARGUMENT);
    assert_eq!(text(&global), "out_buffer must not be null");

    let mut buffer = empty_audio_buffer();
    buffer.frames = 3;
    let status = symphonia_c_decode_file_f32(None, Some(&mut buffer), &mut global, not_called);
    assert_eq!(status, SYMPHONIA_C_INVALID_ARGUMENT);
    assert_eq!(text(&global), "path must not be null");
    assert_eq!(buffer.frames, 0);

    let status = symphonia_c_decode_file_f32(
        Some(b"a\xc3"),
        Some(&mut buffer),
        &mut global,
        not_called,
    );
    assert_eq!(status, SYMPHONIA_C_INVALID_ARGUMENT);
    assert_eq!(text(&global), "path must be valid UTF-8");
}

#[test]
fn a_file_that_cannot_be_opened_is_an_io_error() {
    let mut global = c_string("");
    let mut slot = None;
    let status = symphonia_c_open_file(Some(b"a.wav"), Some(&mut slot), &mut global, missing);
    assert_eq!(status, SYMPHONIA_C_IO_ERROR);
    assert_eq!(text(&global), "no such tune");
    assert!(slot.is_none());

    let mut global = c_string("");
    let mut buffer = empty_audio_buffer();
    let status =
        symphonia_c_decode_file_f32(Some(b"a.wav"), Some(&mut buffer), &mut global, missing);
    assert_eq!(status, SYMPHONIA_C_IO_ERROR);
    assert_eq!(text(&global), "no such tune");
    assert!(buffer.samples.is_empty());
}

#[test]
fn a_file_without_a_known_format_has_no_decoder() {
    let mut global = c_string("");
    let mut slot = None;
    let status = symphonia_c_open_file(Some(b"a.wav"), Some(&mut slot), &mut global, noise);
    assert!(status < 0);
    assert_ne!(text(&global), "");
    assert!(slot.is_none());

    let result = SymphoniaCDecoder::open_file("a.wav", noise);
    let error = result.err().unwrap();
    assert_eq!(error.status, status);
    assert_eq!(error.message, text(&global));
}

#[test]
fn a_failed_probe_is_reported_as_it_is() {
    let error = SymphoniaCDecoder::open_probed(Err(MediaError::LimitError("deep"))).err().unwrap();
    assert_eq!(error.status, SYMPHONIA_C_LIMIT_ERROR);
    assert_eq!(error.message, MediaError::LimitError("deep").to_string());

    let lost = MediaError::IoError(Error::new(ErrorKind::Other, "lost"));
    let error = SymphoniaCDecoder::open_probed(Err(lost)).err().unwrap();
    assert_eq!(error.status, SYMPHONIA_C_IO_ERROR);
    assert!(error.message.contains("lost"));
}

#[test]
fn every_media_error_has_its_status_and_its_text() {
    let io = ApiError::from(MediaError::IoError(Error::new(ErrorKind::Other, "lost")));
    assert_eq!(io.status, SYMPHONIA_C_IO_ERROR);
    assert!(io.message.contains("lost"));

    let decode = ApiError::from(MediaError::DecodeError("bad frame"));
    assert_eq!(decode.status, SYMPHONIA_C_DECODE_ERROR);
    assert!(decode.message.contains("bad frame"));

    let reset = ApiError::from(MediaError::ResetRequired);
    assert_eq!(reset.status, SYMPHONIA_C_DECODE_ERROR);
    assert_eq!(reset.message, MediaError::ResetRequired.to_string());

    let unseekable = symphonia::core::errors::SeekErrorKind::Unseekable;
    let seek = ApiError::from(MediaError::SeekError(unseekable));
    assert_eq!(seek.status, SYMPHONIA_C_DECODE_ERROR);
    assert!(seek.message.contains("not seekable"), "{}", seek.message);

    let unsupported = ApiError::from(MediaError::Unsupported("codec"));
    assert_eq!(unsupported.status, SYMPHONIA_C_UNSUPPORTED);
    assert_eq!(unsupported.message, MediaError::Unsupported("codec").to_string());

    let limit = ApiError::from(MediaError::LimitError("too long"));
    assert_eq!(limit.status, SYMPHONIA_C_LIMIT_ERROR);
    assert_eq!(limit.message, MediaError::LimitError("too long").to_string());

    let plain = ApiError::from(Error::new(ErrorKind::Other, "disk"));
    assert_eq!(plain.status, SYMPHONIA_C_IO_ERROR);
    assert_eq!(plain.message, "disk");
}

#[test]
fn malformed_packets_are_passed_over_and_other_errors_end_the_reading() {
    let audio = DecodedAudio { rate: 8000, channels: 1, samples: vec![5] };
    match judge(Ok(audio)) {
        Judgement::Play(audio) => {
            assert_eq!(audio.rate, 8000);
            assert_eq!(audio.channels, 1);
            assert_eq!(audio.samples, [5]);
        }
        other => panic!("{:?}", other),
    }
    assert!(matches!(judge(Err(MediaError::DecodeError("x"))), Judgement::Skip));
    assert!(matches!(judge(Err(MediaError::ResetRequired)), Judgement::ResetCodec));
    match judge(Err(MediaError::LimitError("x"))) {
        Judgement::Fail(error) => assert_eq!(error.status, SYMPHONIA_C_LIMIT_ERROR),
        other => panic!("{:?}", other),
    }
    match judge(Err(MediaError::IoError(Error::new(ErrorKind::Other, "x")))) {
        Judgement::Fail(error) => assert_eq!(error.status, SYMPHONIA_C_IO_ERROR),
        other => panic!("{:?}", other),
    }
}

#[test]
fn a_panic_is_an_internal_error() {
    let mut global = c_string("");
    assert_eq!(open_file_status(None, &mut global), SYMPHONIA_C_INTERNAL_ERROR);
    assert_eq!(text(&global), "panic while opening decoder");
    assert_eq!(decode_file_status(None, &mut global), SYMPHONIA_C_INTERNAL_ERROR);
    assert_eq!(text(&global), "panic while decoding file");
    assert_eq!(read_f32_status(None, None, &mut global), SYMPHONIA_C_INTERNAL_ERROR);
    assert_eq!(text(&global), "panic while reading decoder");
}

#[test]
fn statuses_come_out_as_they_are() {
    let mut global = c_string("kept");
    assert_eq!(open_file_status(Some(Ok(())), &mut global), SYMPHONIA_C_OK);
    assert_eq!(decode_file_status(Some(Ok(())), &mut global), SYMPHONIA_C_OK);
    assert_eq!(read_f32_status(Some(Ok(1)), None, &mut global), 1);
    assert_eq!(text(&global), "kept");

    let limit = ApiError::new(SYMPHONIA_C_LIMIT_ERROR, "far too long");
    assert_eq!(decode_file_status(Some(Err(limit)), &mut global), SYMPHONIA_C_LIMIT_ERROR);
    assert_eq!(text(&global), "far too long");

    set_decoder_or_global_error(None, &mut global, "a\0b");
    assert_eq!(text(&global), "a b");
}

#[test]
fn a_track_needs_audio_parameters() {
    let error = track_setup(None).err().unwrap();
    assert_eq!(error.status, SYMPHONIA_C_UNSUPPORTED);
    assert_eq!(error.message, "no audio track found");

    let mut track = MediaTrack::new(3);
    let error = track_setup(Some(&track)).err().unwrap();
    assert_eq!(error.status, SYMPHONIA_C_UNSUPPORTED);
    assert_eq!(error.message, "audio track is missing codec parameters");

    track.codec_params = Some(TrackParameters::Audio(AudioParameters::new()));
    let setup = track_setup(Some(&track)).ok().unwrap();
    assert_eq!(setup.track_id, 3);
    assert_eq!(setup.sample_rate, 0);
    assert_eq!(setup.channels, 0);
    assert_eq!(setup.total_frames, 0);
}

#[test]
fn a_track_tells_its_format() {
    for (channels, count) in [
        (ChannelSet::Discrete(6), 6),
        (ChannelSet::Ambisonic(2), 9),
        (ChannelSet::Custom(Vec::new().into_boxed_slice()), 0),
        (ChannelSet::None, 0),
    ] {
        let mut params = AudioParameters::new();
        params.sample_rate = Some(48_000);
        params.channels = Some(channels);
        let mut track = MediaTrack::new(9);
        track.num_frames = Some(77);
        track.codec_params = Some(TrackParameters::Audio(params));
        let setup = track_setup(Some(&track)).ok().unwrap();
        assert_eq!(setup.track_id, 9);
        assert_eq!(setup.sample_rate, 48_000);
        assert_eq!(setup.channels, count);
        assert_eq!(setup.total_frames, 77);
    }
}

#[test]
fn a_path_is_text() {
    assert_eq!(c_path(Some(b"a/b.wav")).ok(), Some(String::from("a/b.wav")));
    assert_eq!(c_path(Some("t\u{f6}ne".as_bytes())).ok(), Some(String::from("t\u{f6}ne")));
    assert_eq!(c_path(Some(b"")).ok(), Some(String::new()));
    assert_eq!(c_path(None).err().unwrap().message, "path must not be null");
    assert_eq!(c_path(Some(b"\x80")).err().unwrap().message, "path must be valid UTF-8");
}

#[test]
fn the_extension_of_a_name_is_a_hint() {
    for (name, extension) in [
        ("tune.wav", "Some(\"wav\")"),
        ("dir.x/tune.old.flac", "Some(\"flac\")"),
        ("tune.", "Some(\"\")"),
        ("tune", "None"),
        (".wav", "None"),
        ("dir.x/tune", "None"),
        ("dir.x/tune.wav/", "Some(\"wav\")"),
        ("tune.wav/./", "Some(\"wav\")"),
        ("./tune.wav", "Some(\"wav\")"),
        ("dir.x/.", "Some(\"x\")"),
        ("dir.x/..", "None"),
        ("...", "Some(\"\")"),
        ("..", "None"),
        (".", "None"),
        ("/", "None"),
        ("", "None"),
    ] {
        let shown = format!("{:?}", format_hint(name));
        let expected = format!("extension: {extension}");
        assert!(shown.contains(&expected), "{name}: {shown}");
    }
}
