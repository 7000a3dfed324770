//! Paths as a C caller gives them.

use vstd::prelude::*;
use vstd::utf8::{encode_utf8, valid_utf8};
use crate::error::ApiError;
use crate::media::{FormatHint, hint_extension};
use crate::status::SYMPHONIA_C_INVALID_ARGUMENT;

verus! {

/// The declared outside type `std::str::Utf8Error`; nothing is said of what it holds.
#[verifier::external_type_specification]
#[verifier::external_body]
pub struct ExUtf8Error(std::str::Utf8Error);

/// `std::str::from_utf8`: the bytes are taken as text if and only if they are valid UTF-8, and the
/// text then has these bytes.
pub assume_specification[ std::str::from_utf8 ](bytes: &[u8]) -> (text: Result<
    &str,
    std::str::Utf8Error,
>)
    ensures
        text is Ok <==> valid_utf8(bytes@),
        text matches Ok(t) ==> encode_utf8(t@) == bytes@,
;

/// The path is this text.
pub open spec fn is_path(path: Option<&[u8]>, text: Seq<char>) -> bool {
    path matches Some(bytes) && valid_utf8(bytes@) && encode_utf8(text) == bytes@
}

/// The failure to take the path as text: there is none, or it is no valid UTF-8.
pub open spec fn refuses_path(path: Option<&[u8]>, error: ApiError) -> bool {
    match path {
        None => error.says(SYMPHONIA_C_INVALID_ARGUMENT, "path must not be null"@),
        Some(bytes) => {
            &&& !valid_utf8(bytes@)
            &&& error.says(SYMPHONIA_C_INVALID_ARGUMENT, "path must be valid UTF-8"@)
        },
    }
}

/// The bytes of a path as text. `None` stands for a null pointer.
pub fn c_path(path: Option<&[u8]>) -> (result: Result<String, ApiError>)
    ensures
        match result {
            Ok(text) => is_path(path, text@),
            Err(error) => refuses_path(path, error),
        },
{
    match path {
        None => Err(ApiError::invalid_argument("path must not be null")),
        Some(bytes) => match std::str::from_utf8(bytes) {
            Ok(text) => Ok(text.to_owned()),
            Err(_) => Err(ApiError::invalid_argument("path must be valid UTF-8")),
        },
    }
}

/// The path begins with two characters that separate components on some platform. Windows reads what
/// follows them as the name of a server or takes it as it stands.
pub open spec fn begins_like_a_share(path: Seq<char>) -> bool {
    &&& path.len() >= 2
    &&& path[0] == '/' || path[0] == '\\'
    &&& path[1] == '/' || path[1] == '\\'
}

/// Nothing but separators, and dots that stand alone between them: no component of a path.
pub open spec fn names_nothing(tail: Seq<char>) -> bool {
    forall|i: int|
        0 <= i < tail.len() ==> (#[trigger] tail[i]) == '/' || (tail[i] == '.' && (i == 0 || tail[i
            - 1] == '/'))
}

/// `name` is the last component of `path`, on whatever platform: nothing in it could separate
/// components, it is not a dot that stands alone, nothing but separators and such dots follows it,
/// and the path does not begin like that of a share.
pub open spec fn ends_in_name(
    path: Seq<char>,
    dir: Seq<char>,
    name: Seq<char>,
    tail: Seq<char>,
) -> bool {
    &&& path == dir + name + tail
    &&& !begins_like_a_share(path)
    &&& dir.len() == 0 || dir.last() == '/'
    &&& name.len() > 0
    &&& !name.contains('/') && !name.contains('\\') && !name.contains(':')
    &&& name != seq!['.']
    &&& tail.len() > 0 ==> tail[0] == '/'
    &&& names_nothing(tail)
}

/// `extension` is what follows the last dot of `name`, where something stands before that dot. The
/// name of the parent directory has no extension.
pub open spec fn extends(name: Seq<char>, stem: Seq<char>, extension: Seq<char>) -> bool {
    &&& name != seq!['.', '.']
    &&& name == stem + seq!['.'] + extension
    &&& stem.len() > 0
    &&& !extension.contains('.')
}

/// `extension` is the file extension of `path`, as far as that does not depend on the platform.
pub open spec fn is_extension_of(extension: Option<Seq<char>>, path: Seq<char>) -> bool {
    &&& forall|dir: Seq<char>, name: Seq<char>, tail: Seq<char>| #[trigger]
        ends_in_name(path, dir, name, tail) ==> match extension {
            Some(e) => exists|stem: Seq<char>| extends(name, stem, e),
            None => forall|stem: Seq<char>, e: Seq<char>| !extends(name, stem, e),
        }
    &&& names_nothing(path) && !begins_like_a_share(path) ==> extension is None
}

/// `std::path::Path::extension`: what follows the last dot of the last component of the path, and
/// nothing where that component has no dot or only a leading one, is the parent directory, or where
/// there is none. Separators at the end and dots that stand alone are no components. Whether `\` and
/// `:` separate components depends on the platform, as does the meaning of a path that begins with
/// two separators; nothing is stated of a path on which platforms differ for that.
#[verifier::external_body]
fn file_extension(path: &str) -> (extension: Option<String>)
    ensures
        is_extension_of(
            match extension {
                Some(e) => Some(e@),
                None => None,
            },
            path@,
        ),
{
    std::path::Path::new(path).extension().and_then(|e| e.to_str()).map(|e| e.to_owned())
}

/// The hint that the name of a file gives about its format: its extension.
pub fn format_hint(path: &str) -> (hint: FormatHint)
    ensures
        is_extension_of(hint_extension(hint), path@),
{
    let mut hint = FormatHint::new();
    match file_extension(path) {
        Some(extension) => {
            hint.with_extension(extension.as_str());
        },
        None => {},
    }
    hint
}

} // verus!
