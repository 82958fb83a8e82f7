//! Clipboard payloads.
use vstd::prelude::*;
use vstd::utf8::*;
use crate::mime::{is_text_mime, is_text_str, text_mime_string, text_str, Text};

verus! {

/// What `String::from_utf8_lossy` makes of a byte sequence.
pub uninterp spec fn lossy_utf8(b: Seq<u8>) -> Seq<char>;

/// Relies on String::from_utf8_lossy: valid UTF-8 is decoded unchanged, and
/// the result depends on the bytes alone.
#[verifier::external_body]
pub(crate) fn utf8_lossy(bytes: &[u8]) -> (r: String)
    ensures
        r@ == lossy_utf8(bytes@),
        valid_utf8(bytes@) ==> r@ == decode_utf8(bytes@),
{
    String::from_utf8_lossy(bytes).into_owned()
}

/// Relies on std::str::from_utf8: it succeeds exactly on valid UTF-8 and
/// then views the decoded characters.
#[verifier::external_body]
fn str_from_utf8(bytes: &[u8]) -> (r: Option<&str>)
    ensures
        r is Some <==> valid_utf8(bytes@),
        r matches Some(s) ==> s@ == decode_utf8(bytes@),
{
    core::str::from_utf8(bytes).ok()
}

/// A copy of a byte slice.
pub fn copy_bytes(b: &[u8]) -> (r: Vec<u8>)
    ensures
        r@ == b@,
{
    let mut out: Vec<u8> = Vec::new();
    let mut i: usize = 0;
    while i < b.len()
        invariant
            0 <= i <= b@.len(),
            out@ == b@.subrange(0, i as int),
        decreases b@.len() - i,
    {
        out.push(b[i]);
        i = i + 1;
        assert(out@ =~= b@.subrange(0, i as int));
    }
    assert(b@.subrange(0, b@.len() as int) =~= b@);
    out
}

/// Data stored in or retrieved from the clipboard.
#[derive(Debug, Clone)]
pub struct ClipboardData {
    /// The MIME type of the data.
    pub mime_type: String,
    /// The raw data bytes.
    pub data: Vec<u8>,
}

impl ClipboardData {
    /// Clipboard data with the given MIME type and bytes.
    pub fn new(mime_type: String, data: Vec<u8>) -> (r: ClipboardData)
        ensures
            r.mime_type == mime_type,
            r.data == data,
    {
        ClipboardData { mime_type, data }
    }

    /// Clipboard data holding the UTF-8 bytes of `text`, typed
    /// `text/plain;charset=utf-8`.
    pub fn from_text(text: &str) -> (r: ClipboardData)
        ensures
            r.mime_type@ == text_str(Text::TextPlainUtf8),
            r.data@ == encode_utf8(text@),
    {
        ClipboardData { mime_type: text_mime_string(Text::TextPlainUtf8), data: copy_bytes(text.as_bytes()) }
    }

    /// The data as text, or `None` when it is not valid UTF-8.
    pub fn as_text(&self) -> (r: Option<&str>)
        ensures
            r is Some <==> valid_utf8(self.data@),
            r matches Some(s) ==> s@ == decode_utf8(self.data@),
    {
        str_from_utf8(self.data.as_slice())
    }

    /// The data as text, with invalid UTF-8 sequences replaced.
    pub fn to_text_lossy(&self) -> (r: String)
        ensures
            r@ == lossy_utf8(self.data@),
            valid_utf8(self.data@) ==> r@ == decode_utf8(self.data@),
    {
        utf8_lossy(self.data.as_slice())
    }

    /// Whether the MIME type denotes text.
    pub fn is_text(&self) -> (r: bool)
        ensures
            r == is_text_str(self.mime_type@),
    {
        is_text_mime(&self.mime_type)
    }
}

} // verus!
