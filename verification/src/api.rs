//! The functions of the C interface, with options in place of pointers.
//!
//! `None` stands for a null pointer. The message of the last failure that belongs to no decoder is
//! kept by the caller and handed in.

use vstd::prelude::*;
use crate::buffer::{SymphoniaCAudioBuffer, decode_all, decoded_whole, empty_audio_buffer};
use crate::decoder::{DecoderView, SymphoniaCDecoder, opened_file, read_frames};
use crate::error::ApiError;
use crate::media::MediaStream;
use crate::message::{CMessage, message_bytes, set_global_error};
use crate::path::{c_path, is_path, refuses_path};
use crate::status::{
    SYMPHONIA_C_END_OF_STREAM, SYMPHONIA_C_INTERNAL_ERROR, SYMPHONIA_C_INVALID_ARGUMENT,
    SYMPHONIA_C_OK,
};

verus! {

/// The sample rate of the audio in Hertz; 0 where it is not known or there is no decoder.
pub fn symphonia_c_sample_rate(decoder: Option<&SymphoniaCDecoder>) -> (rate: u32)
    ensures
        rate == match decoder {
            Some(d) => d@.sample_rate,
            None => 0,
        },
{
    match decoder {
        Some(decoder) => decoder.sample_rate(),
        None => 0,
    }
}

/// The number of channels of the audio; 0 where it is not known or there is no decoder.
pub fn symphonia_c_channels(decoder: Option<&SymphoniaCDecoder>) -> (channels: u32)
    ensures
        channels == match decoder {
            Some(d) => d@.channels,
            None => 0,
        },
{
    match decoder {
        Some(decoder) => decoder.channels(),
        None => 0,
    }
}

/// The length of the audio in frames; 0 where it is not known or there is no decoder.
pub fn symphonia_c_total_frames(decoder: Option<&SymphoniaCDecoder>) -> (frames: u64)
    ensures
        frames == match decoder {
            Some(d) => d@.total_frames,
            None => 0,
        },
{
    match decoder {
        Some(decoder) => decoder.total_frames(),
        None => 0,
    }
}

/// The message of the last failure, with the NUL that ends it: that of the decoder, or the one that
/// belongs to no decoder where there is none.
pub fn symphonia_c_last_error<'a>(
    decoder: Option<&'a SymphoniaCDecoder>,
    last_error: &'a CMessage,
) -> (message: &'a [u8])
    ensures
        message@ == match decoder {
            Some(d) => d@.last_error.push(0),
            None => last_error@.push(0),
        },
        forall|i: int| 0 <= i < message@.len() - 1 ==> message@[i] != 0,
{
    match decoder {
        Some(decoder) => decoder.last_error().as_bytes_with_nul(),
        None => last_error.as_bytes_with_nul(),
    }
}

/// Puts a message where the caller looks for it: in the decoder, or in the place that belongs to no
/// decoder where there is none.
pub fn set_decoder_or_global_error(
    decoder: Option<&mut SymphoniaCDecoder>,
    last_error: &mut CMessage,
    message: &str,
)
    ensures
        match decoder {
            Some(d) => {
                &&& d.wf() ==> final(d).wf()
                &&& final(d).keeps_media(*d)
                &&& final(d)@ == (DecoderView { last_error: message_bytes(message@), ..(*d)@ })
                &&& final(last_error)@ == old(last_error)@
            },
            None => final(last_error)@ == message_bytes(message@),
        },
{
    match decoder {
        Some(decoder) => decoder.set_error(message),
        None => set_global_error(last_error, message),
    }
}

/// What a read does. The decoder, the samples and the number of frames read are taken before and
/// after it, each `None` where there is none.
pub open spec fn read_call(
    before: Option<DecoderView>,
    after: Option<DecoderView>,
    out_before: Option<Seq<u32>>,
    out_after: Option<Seq<u32>>,
    frame_capacity: usize,
    frames: Option<usize>,
    result: Result<i32, ApiError>,
) -> bool {
    if frames is None {
        &&& after == before
        &&& out_after == out_before
        &&& result matches Err(error) && error.says(
            SYMPHONIA_C_INVALID_ARGUMENT,
            "out_frames must not be null"@,
        )
    } else {
        match before {
            None => {
                &&& after is None
                &&& out_after == out_before
                &&& frames == Some(0usize)
                &&& result matches Err(error) && error.says(
                    SYMPHONIA_C_INVALID_ARGUMENT,
                    "decoder must not be null"@,
                )
            },
            Some(view) => {
                &&& after matches Some(end)
                &&& frames matches Some(count)
                &&& read_call_on(
                    DecoderView { last_error: Seq::empty(), ..view },
                    end,
                    out_before,
                    out_after,
                    frame_capacity,
                    count,
                    result,
                )
            },
        }
    }
}

/// The status of a read, where `read` is what came of it: the medium has ended where no frame came
/// because of its end.
pub open spec fn read_status(
    after: DecoderView,
    frames: usize,
    read: Result<usize, ApiError>,
    result: Result<i32, ApiError>,
) -> bool {
    match read {
        Ok(count) => {
            &&& frames == count
            &&& result == Ok::<i32, ApiError>(
                if count == 0 && after.eof {
                    SYMPHONIA_C_END_OF_STREAM
                } else {
                    SYMPHONIA_C_OK
                },
            )
        },
        Err(error) => frames == 0 && result == Err::<i32, ApiError>(error),
    }
}

/// What a read does with a decoder that is there and has no message left.
pub open spec fn read_call_on(
    before: DecoderView,
    after: DecoderView,
    out_before: Option<Seq<u32>>,
    out_after: Option<Seq<u32>>,
    frame_capacity: usize,
    frames: usize,
    result: Result<i32, ApiError>,
) -> bool {
    let untouched = after == before && out_after == out_before && frames == 0;
    if frame_capacity == 0 {
        untouched && result == Ok::<i32, ApiError>(SYMPHONIA_C_OK)
    } else if before.channels == 0 {
        untouched && (result matches Err(error) && DecoderView::no_channels(error))
    } else if frame_capacity * before.channels > usize::MAX {
        untouched && (result matches Err(error) && DecoderView::too_many_samples(error))
    } else {
        match (out_before, out_after) {
            (Some(room), Some(filled)) => exists|read: Result<usize, ApiError>|
                {
                    &&& read_frames(before, after, room, filled, frame_capacity, read)
                    &&& #[trigger] read_status(after, frames, read, result)
                },
            (None, None) => untouched && (result matches Err(error) && error.says(
                SYMPHONIA_C_INVALID_ARGUMENT,
                "out_samples must not be null"@,
            )),
            _ => false,
        }
    }
}

/// Reads at most `frame_capacity` frames and says how many, after it has checked its arguments.
pub fn read_f32_impl(
    decoder: Option<&mut SymphoniaCDecoder>,
    out_samples: Option<&mut [u32]>,
    frame_capacity: usize,
    out_frames: Option<&mut usize>,
) -> (result: Result<i32, ApiError>)
    requires
        decoder matches Some(d) ==> d.wf(),
    ensures
        decoder matches Some(d) ==> final(d).wf() && final(d).comes_from(*d),
        decoder matches Some(d) ==> (final(d)@.rounds == (*d)@.rounds ==> final(d).keeps_media(*d)),
        read_call(
            match decoder {
                Some(d) => Some((*d)@),
                None => None,
            },
            match decoder {
                Some(d) => Some(final(d)@),
                None => None,
            },
            match out_samples {
                Some(out) => Some((*out)@),
                None => None,
            },
            match out_samples {
                Some(out) => Some(final(out)@),
                None => None,
            },
            frame_capacity,
            match out_frames {
                Some(frames) => Some(*final(frames)),
                None => None,
            },
            result,
        ),
{
    let out_frames = match out_frames {
        Some(out_frames) => out_frames,
        None => {
            return Err(ApiError::invalid_argument("out_frames must not be null"));
        },
    };
    *out_frames = 0;
    let decoder = match decoder {
        Some(decoder) => decoder,
        None => {
            return Err(ApiError::invalid_argument("decoder must not be null"));
        },
    };
    decoder.clear_error();
    if frame_capacity == 0 {
        return Ok(SYMPHONIA_C_OK);
    }
    match decoder.sample_capacity(frame_capacity) {
        Ok(_) => {},
        Err(error) => {
            return Err(error);
        },
    }
    let out = match out_samples {
        Some(out) => out,
        None => {
            return Err(ApiError::invalid_argument("out_samples must not be null"));
        },
    };
    let ghost cleared = decoder@;
    let ghost room = out@;
    let read = decoder.read_f32(out, frame_capacity);
    let ghost what = read;
    let result = match read {
        Ok(frames_read) => {
            *out_frames = frames_read;
            if frames_read == 0 && decoder.at_end() {
                Ok(SYMPHONIA_C_END_OF_STREAM)
            } else {
                Ok(SYMPHONIA_C_OK)
            }
        },
        Err(error) => Err(error),
    };
    proof {
        assert(read_frames(cleared, decoder@, room, out@, frame_capacity, what));
        assert(read_status(decoder@, *out_frames, what, result));
    }
    result
}

/// A message was put where the caller looks for it. The decoder and the message that belongs to no
/// decoder are taken before and after that.
pub open spec fn message_put(
    before: Option<DecoderView>,
    after: Option<DecoderView>,
    global_before: Seq<u8>,
    global_after: Seq<u8>,
    message: Seq<u8>,
) -> bool {
    match before {
        Some(view) => {
            &&& after == Some(DecoderView { last_error: message, ..view })
            &&& global_after == global_before
        },
        None => after is None && global_after == message,
    }
}

/// The status of a read and where its message went. `outcome` is what came of the read, or `None`
/// where it panicked.
pub open spec fn read_reported(
    before: Option<DecoderView>,
    after: Option<DecoderView>,
    global_before: Seq<u8>,
    global_after: Seq<u8>,
    outcome: Option<Result<i32, ApiError>>,
    status: i32,
) -> bool {
    match outcome {
        Some(Ok(s)) => status == s && after == before && global_after == global_before,
        Some(Err(error)) => {
            &&& status == error.status
            &&& message_put(
                before,
                after,
                global_before,
                global_after,
                message_bytes(error.message@),
            )
        },
        None => {
            &&& status == SYMPHONIA_C_INTERNAL_ERROR
            &&& message_put(
                before,
                after,
                global_before,
                global_after,
                message_bytes("panic while reading decoder"@),
            )
        },
    }
}

/// A read from its arguments to its status, by way of the decoder as the read left it and of what
/// came of the read.
pub open spec fn read_to_status(
    before: Option<DecoderView>,
    after: Option<DecoderView>,
    out_before: Option<Seq<u32>>,
    out_after: Option<Seq<u32>>,
    frame_capacity: usize,
    frames: Option<usize>,
    global_before: Seq<u8>,
    global_after: Seq<u8>,
    status: i32,
) -> bool {
    exists|between: Option<DecoderView>, result: Result<i32, ApiError>|
        {
            &&& #[trigger] read_call(
                before,
                between,
                out_before,
                out_after,
                frame_capacity,
                frames,
                result,
            )
            &&& read_reported(between, after, global_before, global_after, Some(result), status)
        }
}

/// Turns what came of a read into a status, and puts the message of a failure in its place. `None`
/// stands for a read that panicked.
pub fn read_f32_status(
    outcome: Option<Result<i32, ApiError>>,
    decoder: Option<&mut SymphoniaCDecoder>,
    last_error: &mut CMessage,
) -> (status: i32)
    ensures
        decoder matches Some(d) ==> (d.wf() ==> final(d).wf()) && final(d).keeps_media(*d),
        read_reported(
            match decoder {
                Some(d) => Some((*d)@),
                None => None,
            },
            match decoder {
                Some(d) => Some(final(d)@),
                None => None,
            },
            old(last_error)@,
            final(last_error)@,
            outcome,
            status,
        ),
{
    match outcome {
        Some(Ok(status)) => status,
        Some(Err(error)) => {
            set_decoder_or_global_error(decoder, last_error, error.message.as_str());
            error.status
        },
        None => {
            set_decoder_or_global_error(decoder, last_error, "panic while reading decoder");
            SYMPHONIA_C_INTERNAL_ERROR
        },
    }
}

/// Reads at most `frame_capacity` frames of interleaved samples and says how many. The status is
/// that of the end of the stream where no frame came because of it.
pub fn symphonia_c_read_f32(
    decoder: Option<&mut SymphoniaCDecoder>,
    out_samples: Option<&mut [u32]>,
    frame_capacity: usize,
    out_frames: Option<&mut usize>,
    last_error: &mut CMessage,
) -> (status: i32)
    requires
        decoder matches Some(d) ==> d.wf(),
    ensures
        decoder matches Some(d) ==> final(d).wf() && final(d).comes_from(*d),
        decoder matches Some(d) ==> (final(d)@.rounds == (*d)@.rounds ==> final(d).keeps_media(*d)),
        read_to_status(
            match decoder {
                Some(d) => Some((*d)@),
                None => None,
            },
            match decoder {
                Some(d) => Some(final(d)@),
                None => None,
            },
            match out_samples {
                Some(out) => Some((*out)@),
                None => None,
            },
            match out_samples {
                Some(out) => Some(final(out)@),
                None => None,
            },
            frame_capacity,
            match out_frames {
                Some(frames) => Some(*final(frames)),
                None => None,
            },
            old(last_error)@,
            final(last_error)@,
            status,
        ),
{
    match decoder {
        Some(decoder) => {
            let result = read_f32_impl(Some(&mut *decoder), out_samples, frame_capacity, out_frames);
            read_f32_status(Some(result), Some(decoder), last_error)
        },
        None => {
            let result = read_f32_impl(None, out_samples, frame_capacity, out_frames);
            read_f32_status(Some(result), None, last_error)
        },
    }
}

/// The status of an operation that has no decoder to keep its message, and that message. `outcome`
/// is what came of the operation, or `None` where it panicked.
pub open spec fn reported(
    outcome: Option<Result<(), ApiError>>,
    panic_message: Seq<char>,
    global_before: Seq<u8>,
    global_after: Seq<u8>,
    status: i32,
) -> bool {
    match outcome {
        Some(Ok(_)) => status == SYMPHONIA_C_OK && global_after == global_before,
        Some(Err(error)) => status == error.status && global_after == message_bytes(error.message@),
        None => status == SYMPHONIA_C_INTERNAL_ERROR && global_after == message_bytes(
            panic_message,
        ),
    }
}

/// Turns what came of an operation into a status, and keeps the message of a failure.
fn status_of(
    outcome: Option<Result<(), ApiError>>,
    panic_message: &str,
    last_error: &mut CMessage,
) -> (status: i32)
    ensures
        reported(outcome, panic_message@, old(last_error)@, final(last_error)@, status),
{
    match outcome {
        Some(Ok(_)) => SYMPHONIA_C_OK,
        Some(Err(error)) => {
            set_global_error(last_error, error.message.as_str());
            error.status
        },
        None => {
            set_global_error(last_error, panic_message);
            SYMPHONIA_C_INTERNAL_ERROR
        },
    }
}

/// Turns what came of opening a file into a status, and keeps the message of a failure. `None`
/// stands for an attempt that panicked.
pub fn open_file_status(outcome: Option<Result<(), ApiError>>, last_error: &mut CMessage) -> (status:
    i32)
    ensures
        reported(
            outcome,
            "panic while opening decoder"@,
            old(last_error)@,
            final(last_error)@,
            status,
        ),
{
    status_of(outcome, "panic while opening decoder", last_error)
}

/// Turns what came of decoding a file into a status, and keeps the message of a failure. `None`
/// stands for an attempt that panicked.
pub fn decode_file_status(outcome: Option<Result<(), ApiError>>, last_error: &mut CMessage) -> (
status: i32)
    ensures
        reported(
            outcome,
            "panic while decoding file"@,
            old(last_error)@,
            final(last_error)@,
            status,
        ),
{
    status_of(outcome, "panic while decoding file", last_error)
}

/// The file of this path was opened: `open` made a stream of it, or failed to, and `decoder` is
/// what came of that.
pub open spec fn opens<F: FnOnce(&str) -> Result<MediaStream, std::io::Error>>(
    path: Option<&[u8]>,
    open: F,
    decoder: Result<SymphoniaCDecoder, ApiError>,
) -> bool {
    exists|text: &str, file: Result<MediaStream, std::io::Error>|
        {
            &&& is_path(path, text@)
            &&& #[trigger] call_ensures(open, (text,), file)
            &&& opened_file(text@, file, decoder)
        }
}

/// What opening a file does. `slot` is where the decoder goes, as it is afterwards.
pub open spec fn open_call<F: FnOnce(&str) -> Result<MediaStream, std::io::Error>>(
    path: Option<&[u8]>,
    open: F,
    slot: Option<Option<SymphoniaCDecoder>>,
    result: Result<(), ApiError>,
) -> bool {
    match slot {
        None => result matches Err(error) && error.says(
            SYMPHONIA_C_INVALID_ARGUMENT,
            "out_decoder must not be null"@,
        ),
        Some(Some(decoder)) => result is Ok && opens(path, open, Ok(decoder)),
        Some(None) => result matches Err(error) && (refuses_path(path, error) || opens(
            path,
            open,
            Err(error),
        )),
    }
}

/// Opens a file and puts the decoder into the slot, after it has checked its arguments. `open` makes
/// a stream of the file of a given name.
pub fn open_file_impl<F: FnOnce(&str) -> Result<MediaStream, std::io::Error>>(
    path: Option<&[u8]>,
    out_decoder: Option<&mut Option<SymphoniaCDecoder>>,
    last_error: &mut CMessage,
    open: F,
) -> (result: Result<(), ApiError>)
    requires
        forall|text: &str| #[trigger] call_requires(open, (text,)),
    ensures
        open_call(
            path,
            open,
            match out_decoder {
                Some(slot) => Some(*final(slot)),
                None => None,
            },
            result,
        ),
        final(last_error)@ == if result is Ok {
            Seq::empty()
        } else {
            old(last_error)@
        },
{
    let slot = match out_decoder {
        Some(slot) => slot,
        None => {
            return Err(ApiError::invalid_argument("out_decoder must not be null"));
        },
    };
    *slot = None;
    let name = match c_path(path) {
        Ok(name) => name,
        Err(error) => {
            return Err(error);
        },
    };
    match SymphoniaCDecoder::open_file(name.as_str(), open) {
        Ok(decoder) => {
            *slot = Some(decoder);
        },
        Err(error) => {
            return Err(error);
        },
    }
    set_global_error(last_error, "");
    proof {
        reveal_strlit("");
        assert(last_error@ =~= Seq::<u8>::empty());
    }
    Ok(())
}

/// Opening a file from its arguments to its status, by way of what came of it.
pub open spec fn open_to_status<F: FnOnce(&str) -> Result<MediaStream, std::io::Error>>(
    path: Option<&[u8]>,
    open: F,
    slot: Option<Option<SymphoniaCDecoder>>,
    global_after: Seq<u8>,
    status: i32,
) -> bool {
    exists|result: Result<(), ApiError>|
        {
            &&& #[trigger] open_call(path, open, slot, result)
            &&& reported(
                Some(result),
                "panic while opening decoder"@,
                Seq::empty(),
                global_after,
                status,
            )
        }
}

/// Opens a file and puts the decoder into the slot. `open` makes a stream of the file of a given
/// name. A success leaves an empty message behind.
pub fn symphonia_c_open_file<F: FnOnce(&str) -> Result<MediaStream, std::io::Error>>(
    path: Option<&[u8]>,
    out_decoder: Option<&mut Option<SymphoniaCDecoder>>,
    last_error: &mut CMessage,
    open: F,
) -> (status: i32)
    requires
        forall|text: &str| #[trigger] call_requires(open, (text,)),
    ensures
        open_to_status(
            path,
            open,
            match out_decoder {
                Some(slot) => Some(*final(slot)),
                None => None,
            },
            final(last_error)@,
            status,
        ),
{
    let result = open_file_impl(path, out_decoder, last_error, open);
    open_file_status(Some(result), last_error)
}

/// The buffer holds the audio of a medium: `samples` were decoded of it, in frames of as many
/// samples as there were channels `before`, which is the number of channels that it gives. Its
/// sample rate is the one that the decoder knows `after`.
pub open spec fn filled(
    buffer: SymphoniaCAudioBuffer,
    samples: Seq<u32>,
    before: DecoderView,
    after: DecoderView,
) -> bool {
    &&& buffer.samples@ == samples
    &&& buffer.sample_count == samples.len()
    &&& buffer.frames == samples.len() as int / before.channels as int
    &&& buffer.channels == before.channels
    &&& buffer.sample_rate == after.sample_rate
}

/// What decoding does once a file is open, where `whole` is what came of it. The decoder was
/// `decoder` when it was open and `last` when it was done; what it read and decoded in between is on
/// the record of its container and its codec.
pub open spec fn decode_call_on(
    decoder: SymphoniaCDecoder,
    last: SymphoniaCDecoder,
    whole: Result<Vec<u32>, ApiError>,
    buffer: SymphoniaCAudioBuffer,
    result: Result<(), ApiError>,
) -> bool {
    &&& last.wf()
    &&& last.comes_from(decoder)
    &&& decoded_whole(decoder@, last@, whole)
    &&& match whole {
        Ok(samples) => result is Ok && filled(buffer, samples@, decoder@, last@),
        Err(error) => result == Err::<(), ApiError>(error) && buffer.is_empty(),
    }
}

/// The file of this path was opened and decoded.
pub open spec fn decodes<F: FnOnce(&str) -> Result<MediaStream, std::io::Error>>(
    path: Option<&[u8]>,
    open: F,
    buffer: SymphoniaCAudioBuffer,
    result: Result<(), ApiError>,
) -> bool {
    exists|decoder: SymphoniaCDecoder, last: SymphoniaCDecoder, whole: Result<Vec<u32>, ApiError>|
        opens(path, open, Ok(decoder)) && #[trigger] decode_call_on(
            decoder,
            last,
            whole,
            buffer,
            result,
        )
}

/// Decoding a file fails before anything is decoded of it. `buffer` is where the audio goes, as it is
/// afterwards.
pub open spec fn decode_refused<F: FnOnce(&str) -> Result<MediaStream, std::io::Error>>(
    path: Option<&[u8]>,
    open: F,
    buffer: Option<SymphoniaCAudioBuffer>,
    error: ApiError,
) -> bool {
    match buffer {
        None => error.says(SYMPHONIA_C_INVALID_ARGUMENT, "out_buffer must not be null"@),
        Some(b) => b.is_empty() && (refuses_path(path, error) || opens(path, open, Err(error))),
    }
}

/// What decoding a whole file does. `buffer` is where the audio goes, as it is afterwards.
pub open spec fn decode_call<F: FnOnce(&str) -> Result<MediaStream, std::io::Error>>(
    path: Option<&[u8]>,
    open: F,
    buffer: Option<SymphoniaCAudioBuffer>,
    result: Result<(), ApiError>,
) -> bool {
    ||| result matches Err(error) && decode_refused(path, open, buffer, error)
    ||| buffer matches Some(b) && decodes(path, open, b, result)
}

/// Decodes a whole file into the buffer, after it has checked its arguments. `open` makes a stream
/// of the file of a given name. A failure leaves the buffer empty.
pub fn decode_file_f32_impl<F: FnOnce(&str) -> Result<MediaStream, std::io::Error>>(
    path: Option<&[u8]>,
    out_buffer: Option<&mut SymphoniaCAudioBuffer>,
    last_error: &mut CMessage,
    open: F,
) -> (result: Result<(), ApiError>)
    requires
        forall|text: &str| #[trigger] call_requires(open, (text,)),
    ensures
        decode_call(
            path,
            open,
            match out_buffer {
                Some(buffer) => Some(*final(buffer)),
                None => None,
            },
            result,
        ),
        final(last_error)@ == if result is Ok {
            Seq::empty()
        } else {
            old(last_error)@
        },
{
    let out_buffer = match out_buffer {
        Some(out_buffer) => out_buffer,
        None => {
            return Err(ApiError::invalid_argument("out_buffer must not be null"));
        },
    };
    *out_buffer = empty_audio_buffer();
    let name = match c_path(path) {
        Ok(name) => name,
        Err(error) => {
            return Err(error);
        },
    };
    let mut decoder = match SymphoniaCDecoder::open_file(name.as_str(), open) {
        Ok(decoder) => decoder,
        Err(error) => {
            return Err(error);
        },
    };
    let ghost fresh = decoder;
    let channels = decoder.channels();
    let whole = decode_all(&mut decoder);
    let ghost what = whole;
    let result = match whole {
        Ok(samples) => {
            out_buffer.frames = samples.len() / channels as usize;
            out_buffer.channels = channels;
            out_buffer.sample_rate = decoder.sample_rate();
            out_buffer.sample_count = samples.len();
            out_buffer.samples = samples;
            set_global_error(last_error, "");
            Ok(())
        },
        Err(error) => Err(error),
    };
    proof {
        reveal_strlit("");
        assert(message_bytes(""@) =~= Seq::<u8>::empty());
        assert(opens(path, open, Ok(fresh)));
        assert(decode_call_on(fresh, decoder, what, *out_buffer, result));
        assert(decodes(path, open, *out_buffer, result));
    }
    result
}

/// Decoding a whole file from its arguments to its status, where the file was opened. The decoder was
/// `first` when it was open and `last` when it was done.
pub open spec fn decode_course<F: FnOnce(&str) -> Result<MediaStream, std::io::Error>>(
    path: Option<&[u8]>,
    open: F,
    first: SymphoniaCDecoder,
    last: SymphoniaCDecoder,
    buffer: SymphoniaCAudioBuffer,
    global_after: Seq<u8>,
    status: i32,
) -> bool {
    exists|whole: Result<Vec<u32>, ApiError>, result: Result<(), ApiError>|
        {
            &&& opens(path, open, Ok(first))
            &&& #[trigger] decode_call_on(first, last, whole, buffer, result)
            &&& reported(
                Some(result),
                "panic while decoding file"@,
                Seq::empty(),
                global_after,
                status,
            )
        }
}

/// Decoding a whole file from its arguments to its status: it fails before anything is decoded, or
/// the decoder takes its course from `first` to `last`.
pub open spec fn decode_to_status<F: FnOnce(&str) -> Result<MediaStream, std::io::Error>>(
    path: Option<&[u8]>,
    open: F,
    buffer: Option<SymphoniaCAudioBuffer>,
    global_after: Seq<u8>,
    status: i32,
) -> bool {
    ||| exists|error: ApiError|
        {
            &&& #[trigger] decode_refused(path, open, buffer, error)
            &&& status == error.status
            &&& global_after == message_bytes(error.message@)
        }
    ||| buffer matches Some(b) && exists|first: SymphoniaCDecoder, last: SymphoniaCDecoder|
        #[trigger] decode_course(path, open, first, last, b, global_after, status)
}

/// Decodes a whole file into the buffer. `open` makes a stream of the file of a given name. A
/// success leaves an empty message behind.
pub fn symphonia_c_decode_file_f32<F: FnOnce(&str) -> Result<MediaStream, std::io::Error>>(
    path: Option<&[u8]>,
    out_buffer: Option<&mut SymphoniaCAudioBuffer>,
    last_error: &mut CMessage,
    open: F,
) -> (status: i32)
    requires
        forall|text: &str| #[trigger] call_requires(open, (text,)),
    ensures
        decode_to_status(
            path,
            open,
            match out_buffer {
                Some(buffer) => Some(*final(buffer)),
                None => None,
            },
            final(last_error)@,
            status,
        ),
{
    match out_buffer {
        None => {
            let result = decode_file_f32_impl(path, None, last_error, open);
            decode_file_status(Some(result), last_error)
        },
        Some(buffer) => {
            let result = decode_file_f32_impl(path, Some(&mut *buffer), last_error, open);
            let ghost what = result;
            let status = decode_file_status(Some(result), last_error);
            proof {
                if decodes(path, open, *buffer, what) {
                    let (decoder, last, whole) = choose|
                        decoder: SymphoniaCDecoder,
                        last: SymphoniaCDecoder,
                        whole: Result<Vec<u32>, ApiError>,
                    |
                        opens(path, open, Ok(decoder)) && #[trigger] decode_call_on(
                            decoder,
                            last,
                            whole,
                            *buffer,
                            what,
                        );
                    assert(decode_course(
                        path,
                        open,
                        decoder,
                        last,
                        *buffer,
                        last_error@,
                        status,
                    ));
                } else {
                    assert(decode_refused(path, open, Some(*buffer), what->Err_0));
                }
            }
            status
        },
    }
}

/// Empties a buffer, if there is one.
pub fn symphonia_c_audio_buffer_free(buffer: Option<&mut SymphoniaCAudioBuffer>)
    ensures
        buffer matches Some(b) ==> final(b).is_empty(),
{
    match buffer {
        Some(buffer) => {
            *buffer = empty_audio_buffer();
        },
        None => {},
    }
}

} // verus!
