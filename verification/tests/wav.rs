//! Reading and decoding audio data that is held in memory.

use std::io::Cursor;
use symphonia_c::buffer::{decode_all, empty_audio_buffer};
use symphonia_c::media::MediaStream;
use symphonia_c::message::{CMessage, c_string};
use symphonia_c::path::format_hint;
use symphonia_c::{
    SYMPHONIA_C_END_OF_STREAM, SYMPHONIA_C_INVALID_ARGUMENT, SYMPHONIA_C_OK, SymphoniaCDecoder,
    symphonia_c_audio_buffer_free, symphonia_c_channels, symphonia_c_decode_file_f32,
    symphonia_c_last_error, symphonia_c_open_file, symphonia_c_read_f32, symphonia_c_sample_rate,
    symphonia_c_total_frames,
};

fn make_wav(channels: u16, pcm_samples: &[i16]) -> Vec<u8> {
    let sample_rate = 44_100u32;
    let bits_per_sample = 16u16;
    let block_align = channels * bits_per_sample / 8;
    let byte_rate = sample_rate * u32::from(block_align);
    let data_size = (pcm_samples.len() * 2) as u32;

    let mut wav = Vec::with_capacity(44 + data_size as usize);
    wav.extend_from_slice(b"RIFF");
    wav.extend_from_slice(&(36 + data_size).to_le_bytes());
    wav.extend_from_slice(b"WAVE");
    wav.extend_from_slice(b"fmt ");
    wav.extend_from_slice(&16u32.to_le_bytes());
    wav.extend_from_slice(&1u16.to_le_bytes());
    wav.extend_from_slice(&channels.to_le_bytes());
    wav.extend_from_slice(&sample_rate.to_le_bytes());
    wav.extend_from_slice(&byte_rate.to_le_bytes());
    wav.extend_from_slice(&block_align.to_le_bytes());
    wav.extend_from_slice(&bits_per_sample.to_le_bytes());
    wav.extend_from_slice(b"data");
    wav.extend_from_slice(&data_size.to_le_bytes());
    for sample in pcm_samples {
        wav.extend_from_slice(&sample.to_le_bytes());
    }
    wav
}

fn make_test_wav() -> Vec<u8> {
    make_wav(2, &[0i16, 0, i16::MAX, i16::MIN, 16_384, -16_384, 0, 0])
}

fn test_samples() -> [f32; 8] {
    [0.0, 0.0, 32_767.0 / 32_768.0, -1.0, 0.5, -0.5, 0.0, 0.0]
}

fn stream_of(bytes: Vec<u8>) -> MediaStream {
    MediaStream::new(Box::new(Cursor::new(bytes)), Default::default())
}

fn open_stream(bytes: Vec<u8>) -> SymphoniaCDecoder {
    SymphoniaCDecoder::open_stream(&format_hint("test.wav"), stream_of(bytes)).ok().unwrap()
}

fn floats(samples: &[u32]) -> Vec<f32> {
    samples.iter().map(|s| f32::from_bits(*s)).collect()
}

fn last_error(decoder: Option<&SymphoniaCDecoder>, global: &CMessage) -> String {
    let bytes = symphonia_c_last_error(decoder, global);
    assert_eq!(bytes.last(), Some(&0));
    String::from_utf8(bytes[..bytes.len() - 1].to_vec()).unwrap()
}

#[test]
fn decodes_wav_file_to_interleaved_f32() {
    let mut global = c_string("an older failure");
    let mut buffer = empty_audio_buffer();

    let status = symphonia_c_decode_file_f32(
        Some(b"decode_file.wav"),
        Some(&mut buffer),
        &mut global,
        |_: &str| Ok(stream_of(make_test_wav())),
    );
    assert_eq!(status, SYMPHONIA_C_OK, "{}", last_error(None, &global));
    assert_eq!(buffer.sample_rate, 44_100);
    assert_eq!(buffer.channels, 2);
    assert_eq!(buffer.frames, 4);
    assert_eq!(buffer.sample_count, 8);

    let samples = floats(&buffer.samples);
    assert!(samples[2] > 0.9);
    assert!(samples[3] < -0.9);
    assert_eq!(samples, test_samples());
    assert_eq!(last_error(None, &global), "");

    symphonia_c_audio_buffer_free(Some(&mut buffer));
    assert!(buffer.samples.is_empty());
    assert_eq!(buffer.sample_count, 0);
    assert_eq!(buffer.frames, 0);
    assert_eq!(buffer.channels, 0);
    assert_eq!(buffer.sample_rate, 0);
    symphonia_c_audio_buffer_free(None);
}

#[test]
fn streams_wav_file_in_frame_chunks() {
    let mut global = c_string("an older failure");
    let mut slot = None;

    let status = symphonia_c_open_file(
        Some(b"stream.wav"),
        Some(&mut slot),
        &mut global,
        |_: &str| Ok(stream_of(make_test_wav())),
    );
    assert_eq!(status, SYMPHONIA_C_OK, "{}", last_error(None, &global));
    assert_eq!(last_error(None, &global), "");
    let mut decoder = slot.unwrap();
    assert_eq!(symphonia_c_sample_rate(Some(&decoder)), 44_100);
    assert_eq!(symphonia_c_channels(Some(&decoder)), 2);
    assert_eq!(symphonia_c_total_frames(Some(&decoder)), 4);

    let mut samples = [0u32; 4];
    let mut frames = 0;
    let status = symphonia_c_read_f32(
        Some(&mut decoder),
        Some(&mut samples),
        2,
        Some(&mut frames),
        &mut global,
    );
    assert_eq!(status, SYMPHONIA_C_OK, "{}", last_error(Some(&decoder), &global));
    assert_eq!(frames, 2);
    let first = floats(&samples);
    assert!(first[2] > 0.9);
    assert!(first[3] < -0.9);

    let status = symphonia_c_read_f32(
        Some(&mut decoder),
        Some(&mut samples),
        2,
        Some(&mut frames),
        &mut global,
    );
    assert_eq!(status, SYMPHONIA_C_OK, "{}", last_error(Some(&decoder), &global));
    assert_eq!(frames, 2);
    assert_eq!(floats(&samples), [0.5, -0.5, 0.0, 0.0]);

    let status = symphonia_c_read_f32(
        Some(&mut decoder),
        Some(&mut samples),
        2,
        Some(&mut frames),
        &mut global,
    );
    assert_eq!(status, SYMPHONIA_C_END_OF_STREAM);
    assert_eq!(frames, 0);
}

#[test]
fn the_end_stays() {
    let mut global = c_string("");
    let mut decoder = open_stream(make_test_wav());
    let mut samples = [7u32; 16];
    let mut frames = 9;
    let status = symphonia_c_read_f32(
        Some(&mut decoder),
        Some(&mut samples),
        8,
        Some(&mut frames),
        &mut global,
    );
    assert_eq!(status, SYMPHONIA_C_OK);
    assert_eq!(frames, 4);
    assert_eq!(floats(&samples[..8]), test_samples());
    assert_eq!(samples[8..], [7u32; 8]);
    assert!(decoder.at_end());
    for capacity in [1, 3, 8] {
        let status = symphonia_c_read_f32(
            Some(&mut decoder),
            Some(&mut samples),
            capacity,
            Some(&mut frames),
            &mut global,
        );
        assert_eq!(status, SYMPHONIA_C_END_OF_STREAM);
        assert_eq!(frames, 0);
        assert_eq!(samples[8..], [7u32; 8]);
    }
    let status =
        symphonia_c_read_f32(Some(&mut decoder), None, 0, Some(&mut frames), &mut global);
    assert_eq!(status, SYMPHONIA_C_OK);
    assert_eq!(frames, 0);
}

#[test]
fn pieces_make_up_the_whole() {
    let pcm: Vec<i16> = (0..20_000).map(|i| (i * 7 % 30_000 - 15_000) as i16).collect();
    let mut whole = open_stream(make_wav(2, &pcm));
    let all = decode_all(&mut whole).ok().unwrap();
    assert!(whole.at_end());
    let expected: Vec<f32> = pcm.iter().map(|s| f32::from(*s) / 32_768.0).collect();
    assert_eq!(floats(&all), expected);

    let mut decoder = open_stream(make_wav(2, &pcm));
    let mut pieces = Vec::new();
    let mut capacity = 1;
    loop {
        let mut out = vec![0u32; capacity * 2];
        let frames = decoder.read_f32(&mut out, capacity).ok().unwrap();
        assert!(frames == capacity || decoder.at_end());
        pieces.extend_from_slice(&out[..frames * 2]);
        if frames == 0 {
            break;
        }
        capacity = capacity % 700 + 3;
    }
    assert_eq!(pieces, all);
}

#[test]
fn streaming_and_decoding_agree() {
    let pcm: Vec<i16> = (0..30_002).map(|i| (i * 11 % 40_000 - 20_000) as i16).collect();
    for (channels, capacity) in [(1, 1000), (2, 4097), (2, 40_000)] {
        let mut global = c_string("");
        let mut buffer = empty_audio_buffer();
        let status = symphonia_c_decode_file_f32(
            Some(b"tune.wav"),
            Some(&mut buffer),
            &mut global,
            |_: &str| Ok(stream_of(make_wav(channels, &pcm))),
        );
        assert_eq!(status, SYMPHONIA_C_OK);

        let mut slot = None;
        let status = symphonia_c_open_file(
            Some(b"tune.wav"),
            Some(&mut slot),
            &mut global,
            |_: &str| Ok(stream_of(make_wav(channels, &pcm))),
        );
        assert_eq!(status, SYMPHONIA_C_OK);
        let mut decoder = slot.unwrap();
        let mut streamed = Vec::new();
        let mut out = vec![0u32; capacity * channels as usize];
        let mut frames = 0;
        loop {
            let status = symphonia_c_read_f32(
                Some(&mut decoder),
                Some(&mut out),
                capacity,
                Some(&mut frames),
                &mut global,
            );
            if status == SYMPHONIA_C_END_OF_STREAM {
                break;
            }
            assert_eq!(status, SYMPHONIA_C_OK);
            streamed.extend_from_slice(&out[..frames * channels as usize]);
        }
        assert_eq!(buffer.samples, streamed);
        assert_eq!(buffer.sample_count, 30_002);
        assert_eq!(buffer.channels, symphonia_c_channels(Some(&decoder)));
        assert_eq!(buffer.sample_rate, symphonia_c_sample_rate(Some(&decoder)));
    }
}

/// Frames of silence with two channels, and then frames of one channel, which a decoder that began
/// with two takes for malformed.
fn make_mp3(stereo: usize, mono: usize) -> Vec<u8> {
    let mut mp3 = Vec::new();
    for mode in [vec![0x00u8; stereo], vec![0xc0u8; mono]].concat() {
        mp3.extend_from_slice(&[0xff, 0xfb, 0x90, mode]);
        mp3.extend_from_slice(&[0u8; 413]);
    }
    mp3
}

#[test]
fn malformed_packets_bring_nothing() {
    let mut global = c_string("");
    let mut buffer = empty_audio_buffer();
    let status = symphonia_c_decode_file_f32(
        Some(b"silence.mp3"),
        Some(&mut buffer),
        &mut global,
        |_: &str| Ok(stream_of(make_mp3(20, 15))),
    );
    assert_eq!(status, SYMPHONIA_C_OK, "{}", last_error(None, &global));
    assert_eq!(buffer.channels, 2);
    assert_eq!(buffer.sample_rate, 44_100);
    assert_eq!(buffer.frames, 20 * 1152);
    assert_eq!(buffer.sample_count, buffer.samples.len());
    assert!(buffer.samples.iter().all(|s| *s == 0));
    assert_eq!(buffer.sample_count, buffer.frames * buffer.channels as usize);
}

#[test]
fn decoding_goes_on_from_where_the_decoder_stands() {
    let mut decoder = open_stream(make_test_wav());
    let mut out = [0u32; 2];
    assert_eq!(decoder.read_f32(&mut out, 1).ok(), Some(1));
    let rest = decode_all(&mut decoder).ok().unwrap();
    assert_eq!(floats(&rest), test_samples()[2..]);
}

#[test]
fn a_buffer_counts_its_samples() {
    let pcm = vec![i16::MIN; 4096];
    let mut global = c_string("");
    let mut buffer = empty_audio_buffer();
    let status = symphonia_c_decode_file_f32(
        Some(b"mono.wav"),
        Some(&mut buffer),
        &mut global,
        |_: &str| Ok(stream_of(make_wav(1, &pcm))),
    );
    assert_eq!(status, SYMPHONIA_C_OK);
    assert_eq!(buffer.frames, 4096);
    assert_eq!(buffer.channels, 1);
    assert_eq!(buffer.sample_count, buffer.frames * buffer.channels as usize);
    assert_eq!(buffer.sample_count, buffer.samples.len());
    assert!(floats(&buffer.samples).iter().all(|s| *s == -1.0));
}

#[test]
fn audio_without_frames_gives_a_buffer_without_samples() {
    let mut global = c_string("");
    let mut buffer = empty_audio_buffer();
    let status = symphonia_c_decode_file_f32(
        Some(b"none.wav"),
        Some(&mut buffer),
        &mut global,
        |_: &str| Ok(stream_of(make_wav(2, &[]))),
    );
    assert_eq!(status, SYMPHONIA_C_OK, "{}", last_error(None, &global));
    assert_eq!(buffer.frames, 0);
    assert_eq!(buffer.sample_count, 0);
    assert_eq!(buffer.channels, 2);
    assert_eq!(buffer.sample_rate, 44_100);
    assert!(buffer.samples.is_empty());
}

#[test]
fn the_name_and_the_stream_are_those_of_the_caller() {
    let mut global = c_string("");
    let mut slot = None;
    let status = symphonia_c_open_file(
        Some(b"some/where/tune.wav"),
        Some(&mut slot),
        &mut global,
        |name: &str| {
            assert_eq!(name, "some/where/tune.wav");
            Ok(stream_of(make_wav(1, &[1, 2, 3])))
        },
    );
    assert_eq!(status, SYMPHONIA_C_OK);
    let decoder = slot.unwrap();
    assert_eq!(symphonia_c_channels(Some(&decoder)), 1);
    assert_eq!(symphonia_c_total_frames(Some(&decoder)), 3);
}

#[test]
fn one_decode_brings_one_piece_of_audio() {
    let mut decoder = open_stream(make_test_wav());
    let samples = decoder.decode_next_samples().ok().unwrap().unwrap();
    assert_eq!(floats(&samples), test_samples());
    assert!(decoder.decode_next_samples().ok().unwrap().is_none());
}

#[test]
fn pending_samples_are_drained_in_order() {
    let mut decoder = open_stream(make_test_wav());
    let mut out = [7u32; 10];
    assert_eq!(decoder.drain_pending(&mut out), 0);
    assert_eq!(out, [7u32; 10]);
    assert_eq!(decoder.read_f32(&mut out, 1).ok(), Some(1));

    let mut out = [7u32; 10];
    assert_eq!(decoder.drain_pending(&mut out[..3]), 3);
    assert_eq!(floats(&out[..3]), test_samples()[2..5]);
    assert_eq!(out[3], 7);
    assert_eq!(decoder.drain_pending(&mut out), 3);
    assert_eq!(floats(&out[..3]), test_samples()[5..]);
    assert_eq!(out[3], 7);
    assert_eq!(decoder.drain_pending(&mut out), 0);
}

#[test]
fn refused_reads_take_nothing() {
    let mut decoder = open_stream(make_test_wav());
    let mut out = [0u32; 4];
    assert_eq!(decoder.read_f32(&mut out, 0).ok(), Some(0));
    let error = decoder.read_f32(&mut out, 3).err().unwrap();
    assert_eq!(error.status, SYMPHONIA_C_INVALID_ARGUMENT);
    assert_eq!(error.message, "output buffer is too small");
    let error = decoder.read_f32(&mut out, usize::MAX).err().unwrap();
    assert_eq!(error.status, SYMPHONIA_C_INVALID_ARGUMENT);
    assert_eq!(error.message, "frame capacity overflows sample count");
    assert_eq!(decoder.channel_count().ok(), Some(2));
    assert_eq!(decoder.sample_capacity(5).ok(), Some(10));
    assert_eq!(decoder.read_f32(&mut out, 2).ok(), Some(2));
    assert_eq!(floats(&out), test_samples()[..4]);
}

#[test]
fn refused_reads_are_answered_through_the_decoder() {
    let mut decoder = open_stream(make_test_wav());
    let mut global = c_string("global");
    let mut out = [0u32; 4];
    let mut frames = 9;

    let status = symphonia_c_read_f32(Some(&mut decoder), Some(&mut out), 2, None, &mut global);
    assert_eq!(status, SYMPHONIA_C_INVALID_ARGUMENT);
    assert_eq!(last_error(Some(&decoder), &global), "out_frames must not be null");

    let status =
        symphonia_c_read_f32(Some(&mut decoder), None, 2, Some(&mut frames), &mut global);
    assert_eq!(status, SYMPHONIA_C_INVALID_ARGUMENT);
    assert_eq!(frames, 0);
    assert_eq!(last_error(Some(&decoder), &global), "out_samples must not be null");

    let status = symphonia_c_read_f32(
        Some(&mut decoder),
        None,
        usize::MAX,
        Some(&mut frames),
        &mut global,
    );
    assert_eq!(status, SYMPHONIA_C_INVALID_ARGUMENT);
    assert_eq!(last_error(Some(&decoder), &global), "frame capacity overflows sample count");
    assert_eq!(last_error(None, &global), "global");

    let status = symphonia_c_read_f32(
        Some(&mut decoder),
        Some(&mut out),
        2,
        Some(&mut frames),
        &mut global,
    );
    assert_eq!(status, SYMPHONIA_C_OK);
    assert_eq!(frames, 2);
    assert_eq!(last_error(Some(&decoder), &global), "");
}

#[test]
fn a_read_without_a_decoder_is_answered_globally() {
    let mut global = c_string("");
    let mut frames = 9;
    let status =
        symphonia_c_read_f32(None, Some(&mut [0u32; 4]), 2, Some(&mut frames), &mut global);
    assert_eq!(status, SYMPHONIA_C_INVALID_ARGUMENT);
    assert_eq!(frames, 0);
    assert_eq!(last_error(None, &global), "decoder must not be null");

    let status = symphonia_c_read_f32(None, None, 2, None, &mut global);
    assert_eq!(status, SYMPHONIA_C_INVALID_ARGUMENT);
    assert_eq!(last_error(None, &global), "out_frames must not be null");

    assert_eq!(symphonia_c_sample_rate(None), 0);
    assert_eq!(symphonia_c_channels(None), 0);
    assert_eq!(symphonia_c_total_frames(None), 0);
}
