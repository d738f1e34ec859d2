//! Content types: the fixed table that maps a file extension to the type a
//! file is served with, and the guess that is stored with a cached file.

use vstd::prelude::*;
use std::path::Path;
use crate::text::{chars_of, same_chars};

verus! {

/// The extension that `std::path::Path::extension` finds in `path`: the part
/// of the file name behind its last dot, if the name has one that is not its
/// first character.
pub uninterp spec fn path_extension(path: Seq<char>) -> Option<Seq<char>>;

/// The media type that `mime_guess` puts first for `path`, or
/// `application/octet-stream` where it knows none.
pub uninterp spec fn guessed_mime(path: Seq<char>) -> Seq<char>;

/// `Path::extension` on `path`, as text. The path is text to begin with, so
/// the extension always is.
#[verifier::external_body]
fn extension_of(path: &str) -> (ext: Option<String>)
    ensures
        ext matches Some(e) ==> path_extension(path@) == Some(e@),
        ext is None ==> path_extension(path@) is None,
{
    Path::new(path).extension().and_then(|e| e.to_str()).map(|e| e.to_owned())
}

/// `mime_guess::from_path(path).first_or_octet_stream()`, written out as
/// text. The guess depends on the path alone; no file is opened.
#[verifier::external_body]
pub(crate) fn guess_mime(path: &str) -> (mime: String)
    ensures
        mime@ == guessed_mime(path@),
{
    mime_guess::from_path(path).first_or_octet_stream().to_string()
}

/// The content type for a file extension. The match is case-sensitive; an
/// unknown or missing extension is served as an opaque byte stream.
pub open spec fn mime_of_extension(ext: Option<Seq<char>>) -> Seq<char> {
    match ext {
        Some(e) => if e == "html"@ || e == "htm"@ {
            "text/html; charset=utf-8"@
        } else if e == "css"@ {
            "text/css"@
        } else if e == "js"@ {
            "application/javascript"@
        } else if e == "json"@ {
            "application/json"@
        } else if e == "png"@ {
            "image/png"@
        } else if e == "jpg"@ || e == "jpeg"@ {
            "image/jpeg"@
        } else if e == "gif"@ {
            "image/gif"@
        } else if e == "svg"@ {
            "image/svg+xml"@
        } else if e == "ico"@ {
            "image/x-icon"@
        } else if e == "txt"@ {
            "text/plain"@
        } else if e == "pdf"@ {
            "application/pdf"@
        } else if e == "zip"@ {
            "application/zip"@
        } else if e == "xml"@ {
            "application/xml"@
        } else {
            "application/octet-stream"@
        },
        None => "application/octet-stream"@,
    }
}

/// Whether the characters `e` spell `word`.
fn spells(e: &Vec<char>, word: &str) -> (yes: bool)
    ensures
        yes == (e@ == word@),
{
    let w = chars_of(word);
    same_chars(e, &w)
}

/// Looks an extension up in the table of content types.
pub fn mime_for_extension(ext: Option<&str>) -> (mime: &'static str)
    ensures
        mime@ == mime_of_extension(
            match ext {
                Some(e) => Some(e@),
                None => None,
            },
        ),
{
    match ext {
        Some(text) => {
            let e = chars_of(text);
            if spells(&e, "html") || spells(&e, "htm") {
                "text/html; charset=utf-8"
            } else if spells(&e, "css") {
                "text/css"
            } else if spells(&e, "js") {
                "application/javascript"
            } else if spells(&e, "json") {
                "application/json"
            } else if spells(&e, "png") {
                "image/png"
            } else if spells(&e, "jpg") || spells(&e, "jpeg") {
                "image/jpeg"
            } else if spells(&e, "gif") {
                "image/gif"
            } else if spells(&e, "svg") {
                "image/svg+xml"
            } else if spells(&e, "ico") {
                "image/x-icon"
            } else if spells(&e, "txt") {
                "text/plain"
            } else if spells(&e, "pdf") {
                "application/pdf"
            } else if spells(&e, "zip") {
                "application/zip"
            } else if spells(&e, "xml") {
                "application/xml"
            } else {
                "application/octet-stream"
            }
        },
        None => "application/octet-stream",
    }
}

/// The content type that a file at `file_path` is served with, by its
/// extension.
pub fn get_mime_type(file_path: &str) -> (mime: &'static str)
    ensures
        mime@ == mime_of_extension(path_extension(file_path@)),
{
    match extension_of(file_path) {
        Some(ext) => mime_for_extension(Some(ext.as_str())),
        None => mime_for_extension(None),
    }
}

} // verus!
