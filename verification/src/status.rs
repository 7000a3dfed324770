//! The status codes of the interface and their texts.

use vstd::prelude::*;

verus! {

pub const SYMPHONIA_C_OK: i32 = 0;
pub const SYMPHONIA_C_END_OF_STREAM: i32 = 1;
pub const SYMPHONIA_C_INVALID_ARGUMENT: i32 = -1;
pub const SYMPHONIA_C_IO_ERROR: i32 = -2;
pub const SYMPHONIA_C_DECODE_ERROR: i32 = -3;
pub const SYMPHONIA_C_UNSUPPORTED: i32 = -4;
pub const SYMPHONIA_C_LIMIT_ERROR: i32 = -5;
pub const SYMPHONIA_C_INTERNAL_ERROR: i32 = -6;

/// The text of a status code; every number that is no status code has one text.
pub open spec fn status_text(status: i32) -> Seq<char> {
    if status == SYMPHONIA_C_OK {
        "ok"@
    } else if status == SYMPHONIA_C_END_OF_STREAM {
        "end of stream"@
    } else if status == SYMPHONIA_C_INVALID_ARGUMENT {
        "invalid argument"@
    } else if status == SYMPHONIA_C_IO_ERROR {
        "io error"@
    } else if status == SYMPHONIA_C_DECODE_ERROR {
        "decode error"@
    } else if status == SYMPHONIA_C_UNSUPPORTED {
        "unsupported format or codec"@
    } else if status == SYMPHONIA_C_LIMIT_ERROR {
        "decoder limit reached"@
    } else if status == SYMPHONIA_C_INTERNAL_ERROR {
        "internal error"@
    } else {
        "unknown status"@
    }
}

/// The text of `status`, followed by a NUL so that it can be handed out as a C string.
pub fn symphonia_c_status_message(status: i32) -> (text: &'static str)
    ensures
        text@ == status_text(status).push('\0'),
{
    proof {
        reveal_strlit("ok");
        reveal_strlit("ok\0");
        reveal_strlit("end of stream");
        reveal_strlit("end of stream\0");
        reveal_strlit("invalid argument");
        reveal_strlit("invalid argument\0");
        reveal_strlit("io error");
        reveal_strlit("io error\0");
        reveal_strlit("decode error");
        reveal_strlit("decode error\0");
        reveal_strlit("unsupported format or codec");
        reveal_strlit("unsupported format or codec\0");
        reveal_strlit("decoder limit reached");
        reveal_strlit("decoder limit reached\0");
        reveal_strlit("internal error");
        reveal_strlit("internal error\0");
        reveal_strlit("unknown status");
        reveal_strlit("unknown status\0");
    }
    match status {
        SYMPHONIA_C_OK => "ok\0",
        SYMPHONIA_C_END_OF_STREAM => "end of stream\0",
        SYMPHONIA_C_INVALID_ARGUMENT => "invalid argument\0",
        SYMPHONIA_C_IO_ERROR => "io error\0",
        SYMPHONIA_C_DECODE_ERROR => "decode error\0",
        SYMPHONIA_C_UNSUPPORTED => "unsupported format or codec\0",
        SYMPHONIA_C_LIMIT_ERROR => "decoder limit reached\0",
        SYMPHONIA_C_INTERNAL_ERROR => "internal error\0",
        _ => "unknown status\0",
    }
}

/// The number is one of the status codes.
pub open spec fn is_status(status: i32) -> bool {
    SYMPHONIA_C_INTERNAL_ERROR <= status <= SYMPHONIA_C_END_OF_STREAM
}

/// A status code has a text that no other number has, and no text is empty.
pub proof fn law_texts_tell_statuses_apart(a: i32, b: i32)
    requires
        is_status(a),
        a != b,
    ensures
        status_text(a) != status_text(b),
        status_text(a).len() > 0,
        status_text(b).len() > 0,
{
    reveal_strlit("ok");
    reveal_strlit("end of stream");
    reveal_strlit("invalid argument");
    reveal_strlit("io error");
    reveal_strlit("decode error");
    reveal_strlit("unsupported format or codec");
    reveal_strlit("decoder limit reached");
    reveal_strlit("internal error");
    reveal_strlit("unknown status");
    let first = status_text(a);
    let second = status_text(b);
    assert(first.len() != second.len() || first[0] != second[0]);
}

} // verus!
