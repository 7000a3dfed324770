//! Messages and status texts.

use symphonia_c::error::ApiError;
use symphonia_c::message::{c_string, set_global_error};
use symphonia_c::symphonia_c_status_message;

#[test]
fn nul_becomes_a_space() {
    let mut message = c_string("a\0b\0");
    assert_eq!(message.as_bytes_with_nul(), b"a b \0");
    set_global_error(&mut message, "");
    assert_eq!(message.as_bytes_with_nul(), b"\0");
}

#[test]
fn plain_text_is_kept() {
    assert_eq!(c_string("no tune").as_bytes_with_nul(), b"no tune\0");
    assert_eq!(c_string("t\u{f6}ne").as_bytes_with_nul(), b"t\xc3\xb6ne\0");
}

#[test]
fn errors_keep_status_and_text() {
    let error = ApiError::new(-4, "no");
    assert_eq!(error.status, -4);
    assert_eq!(error.message, "no");
    let error = ApiError::invalid_argument("x");
    assert_eq!(error.status, -1);
    assert_eq!(error.message, "x");
}

#[test]
fn statuses_have_texts() {
    assert_eq!(symphonia_c_status_message(0), "ok\0");
    assert_eq!(symphonia_c_status_message(1), "end of stream\0");
    assert_eq!(symphonia_c_status_message(-1), "invalid argument\0");
    assert_eq!(symphonia_c_status_message(-2), "io error\0");
    assert_eq!(symphonia_c_status_message(-3), "decode error\0");
    assert_eq!(symphonia_c_status_message(-4), "unsupported format or codec\0");
    assert_eq!(symphonia_c_status_message(-5), "decoder limit reached\0");
    assert_eq!(symphonia_c_status_message(-6), "internal error\0");
    assert_eq!(symphonia_c_status_message(-7), "unknown status\0");
    assert_eq!(symphonia_c_status_message(7), "unknown status\0");
}
