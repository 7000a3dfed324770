//! Status codes, failures, messages, paths, and what can be asked of a decoder at any time.

use vstd::prelude::*;
use vstd::string::to_string_from_display_ensures;
use vstd::utf8::{encode_utf8, valid_utf8};
use crate::api::{
    decode_file_status, open_file_status, read_f32_status, set_decoder_or_global_error,
    symphonia_c_audio_buffer_free, symphonia_c_channels, symphonia_c_last_error,
    symphonia_c_sample_rate, symphonia_c_total_frames,
};
use crate::buffer::{SymphoniaCAudioBuffer, empty_audio_buffer};
use crate::decoder::SymphoniaCDecoder;
use crate::error::{ApiError, MediaError};
use crate::media::{FormatHint, hint_extension};
use crate::message::{CMessage, c_string, message_bytes, set_global_error};
use crate::path::{c_path, ends_in_name, extends, format_hint, is_extension_of, names_nothing};
use crate::status::{
    SYMPHONIA_C_DECODE_ERROR, SYMPHONIA_C_END_OF_STREAM, SYMPHONIA_C_INTERNAL_ERROR,
    SYMPHONIA_C_INVALID_ARGUMENT, SYMPHONIA_C_IO_ERROR, SYMPHONIA_C_LIMIT_ERROR, SYMPHONIA_C_OK,
    SYMPHONIA_C_UNSUPPORTED, symphonia_c_status_message,
};

verus! {

/// The status codes are the numbers that C callers know.
pub proof fn law_status_codes()
    ensures
        SYMPHONIA_C_OK == 0,
        SYMPHONIA_C_END_OF_STREAM == 1,
        SYMPHONIA_C_INVALID_ARGUMENT == -1,
        SYMPHONIA_C_IO_ERROR == -2,
        SYMPHONIA_C_DECODE_ERROR == -3,
        SYMPHONIA_C_UNSUPPORTED == -4,
        SYMPHONIA_C_LIMIT_ERROR == -5,
        SYMPHONIA_C_INTERNAL_ERROR == -6,
{
}

/// Every number has the text that stands for it, with a NUL at its end.
pub proof fn law_status_messages(status: i32, text: &'static str)
    requires
        call_ensures(symphonia_c_status_message, (status,), text),
    ensures
        status == 0 ==> text@ == "ok"@.push('\0'),
        status == 1 ==> text@ == "end of stream"@.push('\0'),
        status == -1 ==> text@ == "invalid argument"@.push('\0'),
        status == -2 ==> text@ == "io error"@.push('\0'),
        status == -3 ==> text@ == "decode error"@.push('\0'),
        status == -4 ==> text@ == "unsupported format or codec"@.push('\0'),
        status == -5 ==> text@ == "decoder limit reached"@.push('\0'),
        status == -6 ==> text@ == "internal error"@.push('\0'),
        !(-6 <= status <= 1) ==> text@ == "unknown status"@.push('\0'),
{
}

/// A failure that reports an error of Symphonia has the code for the kind of error, and the text
/// that the error displays.
pub proof fn law_media_errors_are_told_apart(failure: ApiError, error: MediaError)
    ensures
        failure.reports(error) <==> {
            &&& to_string_from_display_ensures::<MediaError>(&error, failure.message)
            &&& failure.status == match error {
                MediaError::IoError(_) => -2,
                MediaError::DecodeError(_) => -3,
                MediaError::ResetRequired => -3,
                MediaError::SeekError(_) => -3,
                MediaError::Unsupported(_) => -4,
                MediaError::LimitError(_) => -5,
                _ => -6int,
            }
        },
{
}

/// A failure that reports an I/O error has the code for it, and the text that the error displays.
pub proof fn law_io_errors(failure: ApiError, error: std::io::Error)
    ensures
        failure.reports_io(error) <==> failure.status == -2 && to_string_from_display_ensures::<
            std::io::Error,
        >(&error, failure.message),
{
}

/// Errors of both kinds become failures that report them.
pub proof fn law_errors_are_reported(
    error: MediaError,
    cause: std::io::Error,
    failure: ApiError,
    io_failure: ApiError,
)
    requires
        call_ensures(<ApiError as From<MediaError>>::from, (error,), failure),
        call_ensures(<ApiError as From<std::io::Error>>::from, (cause,), io_failure),
    ensures
        failure.reports(error),
        io_failure.reports_io(cause),
{
}

/// A failure has the status and the text that it is made with.
pub proof fn law_failures_keep_their_text(
    status: i32,
    text: &str,
    failure: ApiError,
    refusal: ApiError,
)
    requires
        call_ensures(ApiError::new, (status, text), failure),
        call_ensures(ApiError::invalid_argument, (text,), refusal),
    ensures
        failure.status == status,
        failure.message@ == text@,
        refusal.status == -1,
        refusal.message@ == text@,
        failure.says(status, text@),
        forall|s: i32, t: Seq<char>| #[trigger]
            failure.says(s, t) <==> s == failure.status && t == failure.message@,
{
}

/// A message has the bytes of its text, with a space in place of each NUL.
pub proof fn law_messages_have_the_bytes_of_their_text(text: Seq<char>)
    ensures
        message_bytes(text).len() == encode_utf8(text).len(),
        forall|i: int|
            0 <= i < encode_utf8(text).len() ==> #[trigger] message_bytes(text)[i] == if encode_utf8(
                text,
            )[i] == 0 {
                32u8
            } else {
                encode_utf8(text)[i]
            },
{
}

/// A message that is made of a text, or put in place of another, is the message of that text. It is
/// handed out with one NUL at its end.
pub proof fn law_messages_are_made_of_their_text(
    text: &str,
    made: CMessage,
    place: &mut CMessage,
    message: &CMessage,
    bytes: &[u8],
)
    requires
        call_ensures(c_string, (text,), made),
        call_ensures(set_global_error, (place, text), ()),
        call_ensures(CMessage::as_bytes_with_nul, (message,), bytes),
    ensures
        made@ == message_bytes(text@),
        final(place)@ == message_bytes(text@),
        bytes@ == message@.push(0),
        forall|i: int| 0 <= i < message@.len() ==> #[trigger] message@[i] != 0,
{
}

/// A path is taken as text if and only if there is one and it is valid UTF-8, and the text then has
/// its bytes. Otherwise it is refused, and the refusal says why.
pub proof fn law_paths_are_taken_as_they_are(path: Option<&[u8]>, result: Result<String, ApiError>)
    requires
        call_ensures(c_path, (path,), result),
    ensures
        match path {
            None => result matches Err(error) && error.status == -1 && error.message@
                == "path must not be null"@,
            Some(bytes) => if valid_utf8(bytes@) {
                result matches Ok(text) && encode_utf8(text@) == bytes@
            } else {
                result matches Err(error) && error.status == -1 && error.message@
                    == "path must be valid UTF-8"@
            },
        },
{
}

/// What follows the last dot is one thing only.
proof fn lemma_last_dot(a: Seq<char>, x: Seq<char>, b: Seq<char>, y: Seq<char>)
    requires
        a + seq!['.'] + x == b + seq!['.'] + y,
        !x.contains('.'),
        !y.contains('.'),
    ensures
        x == y,
{
    let s = a + seq!['.'] + x;
    let t = b + seq!['.'] + y;
    assert(s.len() == a.len() + 1 + x.len());
    assert(t.len() == b.len() + 1 + y.len());
    assert(s[a.len() as int] == '.');
    assert(t[b.len() as int] == '.');
    if a.len() < b.len() {
        let i = b.len() - a.len() - 1;
        assert(s[b.len() as int] == x[i]);
        assert(x.contains(x[i]));
    } else if b.len() < a.len() {
        let i = a.len() - b.len() - 1;
        assert(t[a.len() as int] == y[i]);
        assert(y.contains(y[i]));
    }
    assert(x =~= s.skip(a.len() as int + 1));
    assert(y =~= t.skip(b.len() as int + 1));
}

/// The hint about the format of a file whose name is a stem, a dot and an extension is that
/// extension, wherever the file lies, and also where separators and dots that stand alone follow.
pub proof fn law_the_extension_is_the_hint(
    dir: Seq<char>,
    stem: Seq<char>,
    extension: Seq<char>,
    tail: Seq<char>,
    path: &str,
    hint: FormatHint,
)
    requires
        call_ensures(format_hint, (path,), hint),
        path@ == dir + (stem + seq!['.'] + extension) + tail,
        dir.len() == 0 || dir.last() == '/',
        !(path@.len() >= 2 && (path@[0] == '/' || path@[0] == '\\') && (path@[1] == '/' || path@[1]
            == '\\')),
        stem.len() > 0,
        stem != seq!['.'] || extension.len() > 0,
        !stem.contains('/') && !stem.contains('\\') && !stem.contains(':'),
        !extension.contains('/') && !extension.contains('\\') && !extension.contains(':'),
        !extension.contains('.'),
        forall|i: int|
            0 <= i < tail.len() ==> (#[trigger] tail[i]) == '/' || (tail[i] == '.' && i > 0
                && tail[i - 1] == '/'),
    ensures
        hint_extension(hint) == Some(extension),
{
    let name = stem + seq!['.'] + extension;
    assert(is_extension_of(hint_extension(hint), path@));
    assert forall|c: char| c == '/' || c == '\\' || c == ':' implies !name.contains(c) by {
        if name.contains(c) {
            let i = choose|i: int| 0 <= i < name.len() && name[i] == c;
            if i < stem.len() {
                assert(stem[i] == c);
                assert(stem.contains(c));
            } else if i > stem.len() {
                assert(extension[i - stem.len() - 1] == c);
                assert(extension.contains(c));
            }
        }
    }
    assert(name.len() >= 2);
    assert(name != seq!['.']);
    if name == seq!['.', '.'] {
        assert(name.len() == 2);
        assert(stem.len() == 1);
        assert(stem[0] == name[0]);
        assert(stem =~= seq!['.']);
        assert(false);
    }
    assert(names_nothing(tail));
    assert(ends_in_name(path@, dir, name, tail));
    assert(extends(name, stem, extension));
    match hint_extension(hint) {
        Some(e) => {
            let other = choose|other: Seq<char>| extends(name, other, e);
            assert(extends(name, other, e));
            lemma_last_dot(stem, extension, other, e);
        },
        None => {
            assert(false);
        },
    }
}

/// There is no hint about the format of a file whose name has no dot, or none but one that it
/// begins with, nor about the parent directory, wherever it lies, and also where separators and
/// dots that stand alone follow.
pub proof fn law_no_extension_no_hint(
    dir: Seq<char>,
    name: Seq<char>,
    tail: Seq<char>,
    path: &str,
    hint: FormatHint,
)
    requires
        call_ensures(format_hint, (path,), hint),
        path@ == dir + name + tail,
        dir.len() == 0 || dir.last() == '/',
        !(path@.len() >= 2 && (path@[0] == '/' || path@[0] == '\\') && (path@[1] == '/' || path@[1]
            == '\\')),
        name.len() > 0,
        name != seq!['.'],
        !name.contains('/') && !name.contains('\\') && !name.contains(':'),
        name == seq!['.', '.'] || forall|i: int| 0 < i < name.len() ==> name[i] != '.',
        forall|i: int|
            0 <= i < tail.len() ==> (#[trigger] tail[i]) == '/' || (tail[i] == '.' && i > 0
                && tail[i - 1] == '/'),
    ensures
        hint_extension(hint) is None,
{
    assert(is_extension_of(hint_extension(hint), path@));
    assert(names_nothing(tail));
    assert(ends_in_name(path@, dir, name, tail));
    if hint_extension(hint) is Some {
        let e = hint_extension(hint)->0;
        let stem = choose|stem: Seq<char>| extends(name, stem, e);
        assert(extends(name, stem, e));
        assert(name[stem.len() as int] == '.');
    }
}

/// There is no hint where a path names nothing: it is empty, or all separators and dots that stand
/// alone.
pub proof fn law_no_name_no_hint(path: &str, hint: FormatHint)
    requires
        call_ensures(format_hint, (path,), hint),
        !(path@.len() >= 2 && (path@[0] == '/' || path@[0] == '\\') && (path@[1] == '/' || path@[1]
            == '\\')),
        forall|i: int|
            0 <= i < path@.len() ==> (#[trigger] path@[i]) == '/' || (path@[i] == '.' && (i == 0
                || path@[i - 1] == '/')),
    ensures
        hint_extension(hint) is None,
{
    assert(is_extension_of(hint_extension(hint), path@));
    assert(names_nothing(path@));
}

/// What can be asked of a decoder at any time is what it is to its callers, and 0 where there is no
/// decoder. The message of the last failure is that of the decoder, or the one that belongs to no
/// decoder where there is none.
pub proof fn law_questions_are_answered(
    decoder: Option<&SymphoniaCDecoder>,
    rate: u32,
    channels: u32,
    frames: u64,
    global: &CMessage,
    message: &[u8],
)
    requires
        call_ensures(symphonia_c_sample_rate, (decoder,), rate),
        call_ensures(symphonia_c_channels, (decoder,), channels),
        call_ensures(symphonia_c_total_frames, (decoder,), frames),
        call_ensures(symphonia_c_last_error, (decoder, global), message),
    ensures
        match decoder {
            Some(d) => {
                &&& rate == d@.sample_rate
                &&& channels == d@.channels
                &&& frames == d@.total_frames
                &&& message@ == d@.last_error.push(0)
            },
            None => {
                &&& rate == 0
                &&& channels == 0
                &&& frames == 0
                &&& message@ == global@.push(0)
            },
        },
{
}

/// The same of the decoder's own methods.
pub proof fn law_a_decoder_answers(
    decoder: &SymphoniaCDecoder,
    rate: u32,
    channels: u32,
    frames: u64,
    ended: bool,
    message: &CMessage,
    count: Result<usize, ApiError>,
    frame_capacity: usize,
    capacity: Result<usize, ApiError>,
)
    requires
        call_ensures(SymphoniaCDecoder::sample_rate, (decoder,), rate),
        call_ensures(SymphoniaCDecoder::channels, (decoder,), channels),
        call_ensures(SymphoniaCDecoder::total_frames, (decoder,), frames),
        call_ensures(SymphoniaCDecoder::at_end, (decoder,), ended),
        call_ensures(SymphoniaCDecoder::last_error, (decoder,), message),
        call_ensures(SymphoniaCDecoder::channel_count, (decoder,), count),
        call_ensures(SymphoniaCDecoder::sample_capacity, (decoder, frame_capacity), capacity),
    ensures
        rate == decoder@.sample_rate,
        channels == decoder@.channels,
        frames == decoder@.total_frames,
        ended == decoder@.eof,
        message@ == decoder@.last_error,
        if decoder@.channels == 0 {
            &&& count matches Err(error) && error.status == -4 && error.message@
                == "audio channel count is unknown"@
            &&& capacity matches Err(error) && error.status == -4 && error.message@
                == "audio channel count is unknown"@
        } else {
            &&& count matches Ok(n) && n == decoder@.channels
            &&& if frame_capacity * decoder@.channels > usize::MAX {
                capacity matches Err(error) && error.status == -1 && error.message@
                    == "frame capacity overflows sample count"@
            } else {
                capacity matches Ok(n) && n == frame_capacity * decoder@.channels
            }
        },
{
}

/// Storing a message in a decoder changes that message and nothing else of the decoder.
pub proof fn law_a_message_changes_nothing_else(
    told: &mut SymphoniaCDecoder,
    text: &str,
    cleared: &mut SymphoniaCDecoder,
)
    requires
        call_ensures(SymphoniaCDecoder::set_error, (told, text), ()),
        call_ensures(SymphoniaCDecoder::clear_error, (cleared,), ()),
    ensures
        final(told)@.last_error == message_bytes(text@),
        final(told)@.rounds == old(told)@.rounds,
        final(told)@.track_id == old(told)@.track_id,
        final(told)@.sample_rate == old(told)@.sample_rate,
        final(told)@.channels == old(told)@.channels,
        final(told)@.total_frames == old(told)@.total_frames,
        final(told)@.held == old(told)@.held,
        final(told)@.held_taken == old(told)@.held_taken,
        final(told)@.pending == old(told)@.pending,
        final(told)@.eof == old(told)@.eof,
        final(told).reader() == old(told).reader(),
        final(told).codec() == old(told).codec(),
        old(told).wf() ==> final(told).wf(),
        final(cleared)@.last_error == Seq::<u8>::empty(),
        final(cleared)@.rounds == old(cleared)@.rounds,
        final(cleared)@.track_id == old(cleared)@.track_id,
        final(cleared)@.sample_rate == old(cleared)@.sample_rate,
        final(cleared)@.channels == old(cleared)@.channels,
        final(cleared)@.total_frames == old(cleared)@.total_frames,
        final(cleared)@.held == old(cleared)@.held,
        final(cleared)@.held_taken == old(cleared)@.held_taken,
        final(cleared)@.pending == old(cleared)@.pending,
        final(cleared)@.eof == old(cleared)@.eof,
        final(cleared).reader() == old(cleared).reader(),
        final(cleared).codec() == old(cleared).codec(),
        old(cleared).wf() ==> final(cleared).wf(),
{
}

/// A message goes to the decoder where there is one, and otherwise to the place that belongs to no
/// decoder; exactly one of them is written.
pub proof fn law_a_message_goes_to_one_place(
    decoder: Option<&mut SymphoniaCDecoder>,
    global: &mut CMessage,
    text: &str,
)
    requires
        call_ensures(set_decoder_or_global_error, (decoder, global, text), ()),
    ensures
        match decoder {
            Some(d) => {
                &&& final(d)@.last_error == message_bytes(text@)
                &&& final(d)@.rounds == (*d)@.rounds
                &&& final(d)@.track_id == (*d)@.track_id
                &&& final(d)@.sample_rate == (*d)@.sample_rate
                &&& final(d)@.channels == (*d)@.channels
                &&& final(d)@.total_frames == (*d)@.total_frames
                &&& final(d)@.held == (*d)@.held
                &&& final(d)@.held_taken == (*d)@.held_taken
                &&& final(d)@.pending == (*d)@.pending
                &&& final(d)@.eof == (*d)@.eof
                &&& final(d).reader() == d.reader()
                &&& final(d).codec() == d.codec()
                &&& d.wf() ==> final(d).wf()
                &&& final(global)@ == old(global)@
            },
            None => final(global)@ == message_bytes(text@),
        },
{
}

/// What comes of opening and of decoding a file is told by its own status and message; a panic is
/// an internal error.
pub proof fn law_outcomes_without_a_decoder_are_told(
    opening: Option<Result<(), ApiError>>,
    opening_place: &mut CMessage,
    opening_status: i32,
    decoding: Option<Result<(), ApiError>>,
    decoding_place: &mut CMessage,
    decoding_status: i32,
)
    requires
        call_ensures(open_file_status, (opening, opening_place), opening_status),
        call_ensures(decode_file_status, (decoding, decoding_place), decoding_status),
    ensures
        match opening {
            Some(Ok(_)) => opening_status == 0 && final(opening_place)@ == old(opening_place)@,
            Some(Err(error)) => opening_status == error.status && final(opening_place)@
                == message_bytes(error.message@),
            None => opening_status == -6 && final(opening_place)@ == message_bytes(
                "panic while opening decoder"@,
            ),
        },
        match decoding {
            Some(Ok(_)) => decoding_status == 0 && final(decoding_place)@ == old(decoding_place)@,
            Some(Err(error)) => decoding_status == error.status && final(decoding_place)@
                == message_bytes(error.message@),
            None => decoding_status == -6 && final(decoding_place)@ == message_bytes(
                "panic while decoding file"@,
            ),
        },
{
}

/// What comes of a read is told by its own status; its message goes to the decoder where there is
/// one; a panic is an internal error.
pub proof fn law_outcomes_of_reads_are_told(
    outcome: Option<Result<i32, ApiError>>,
    decoder: Option<&mut SymphoniaCDecoder>,
    global: &mut CMessage,
    status: i32,
)
    requires
        call_ensures(read_f32_status, (outcome, decoder, global), status),
    ensures
        status == match outcome {
            Some(Ok(s)) => s,
            Some(Err(error)) => error.status,
            None => -6i32,
        },
        match decoder {
            Some(d) => {
                &&& final(global)@ == old(global)@
                &&& final(d)@.last_error == match outcome {
                    Some(Ok(_)) => (*d)@.last_error,
                    Some(Err(error)) => message_bytes(error.message@),
                    None => message_bytes("panic while reading decoder"@),
                }
                &&& final(d)@.rounds == (*d)@.rounds
                &&& final(d)@.track_id == (*d)@.track_id
                &&& final(d)@.sample_rate == (*d)@.sample_rate
                &&& final(d)@.channels == (*d)@.channels
                &&& final(d)@.total_frames == (*d)@.total_frames
                &&& final(d)@.pending == (*d)@.pending
                &&& final(d)@.eof == (*d)@.eof
                &&& final(d).reader() == d.reader()
                &&& final(d).codec() == d.codec()
                &&& d.wf() ==> final(d).wf()
            },
            None => final(global)@ == match outcome {
                Some(Ok(_)) => old(global)@,
                Some(Err(error)) => message_bytes(error.message@),
                None => message_bytes("panic while reading decoder"@),
            },
        },
{
}

/// A buffer that is made empty or freed holds nothing and says so in every field.
pub proof fn law_an_empty_buffer_holds_nothing(
    made: SymphoniaCAudioBuffer,
    freed: &mut SymphoniaCAudioBuffer,
)
    requires
        call_ensures(empty_audio_buffer, (), made),
        call_ensures(symphonia_c_audio_buffer_free, (Some(freed),), ()),
    ensures
        made.samples@.len() == 0,
        made.sample_count == 0,
        made.frames == 0,
        made.channels == 0,
        made.sample_rate == 0,
        final(freed).samples@.len() == 0,
        final(freed).sample_count == 0,
        final(freed).frames == 0,
        final(freed).channels == 0,
        final(freed).sample_rate == 0,
        made.is_empty(),
{
}

} // verus!
