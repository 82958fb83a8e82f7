//! Plain text as a clipboard payload.
use vstd::prelude::*;
use vstd::utf8::*;
use crate::data::{copy_bytes, lossy_utf8, utf8_lossy};
use crate::mime::{normalize_to_lf, normalized, AllowedMimeTypes, AsMimeTypes, Error, MimeModel, MimeType};

verus! {

/// Plain text.
#[derive(Debug)]
pub struct Text(pub String);

/// The text encodings, most preferred first.
pub open spec fn text_models() -> Seq<MimeModel> {
    seq![
        MimeModel::Text(crate::mime::Text::TextPlainUtf8),
        MimeModel::Text(crate::mime::Text::Utf8String),
        MimeModel::Text(crate::mime::Text::TextPlain),
    ]
}

/// The text of a payload of a text MIME type: the lossy UTF-8 decoding,
/// with line endings normalized except for `UTF8_STRING`.
pub open spec fn payload_text(content: Seq<u8>, t: crate::mime::Text) -> Seq<char> {
    match t {
        crate::mime::Text::Utf8String => lossy_utf8(content),
        _ => normalized(lossy_utf8(content)),
    }
}

impl Text {
    /// Text from a payload; only the text MIME types convert.
    pub fn from_payload(content: Vec<u8>, mime_type: MimeType) -> (r: Result<Text, Error>)
        ensures
            match mime_type {
                MimeType::Text(t) => r matches Ok(x) && x.0@ == payload_text(content@, t),
                MimeType::Other(_) => r is Err,
            },
    {
        let decoded = utf8_lossy(content.as_slice());
        match mime_type {
            MimeType::Text(crate::mime::Text::Utf8String) => Ok(Text(decoded)),
            MimeType::Text(_) => Ok(Text(normalize_to_lf(decoded))),
            MimeType::Other(_) => Err(Error),
        }
    }
}

/// The three text encodings.
fn text_mime_list() -> (r: Vec<MimeType>)
    ensures
        r@.map_values(|m: MimeType| m@) == text_models(),
{
    let mut v: Vec<MimeType> = Vec::new();
    v.push(MimeType::Text(crate::mime::Text::TextPlainUtf8));
    v.push(MimeType::Text(crate::mime::Text::Utf8String));
    v.push(MimeType::Text(crate::mime::Text::TextPlain));
    assert(v@.map_values(|m: MimeType| m@) =~= text_models());
    v
}

impl AllowedMimeTypes for Text {
    open spec fn allowed_spec() -> Seq<MimeModel> {
        text_models()
    }

    fn allowed() -> (r: Vec<MimeType>) {
        text_mime_list()
    }
}

impl AsMimeTypes for Text {
    open spec fn available_spec(&self) -> Seq<MimeModel> {
        text_models()
    }

    open spec fn bytes_spec(&self, mime_type: MimeModel) -> Option<Seq<u8>> {
        match mime_type {
            MimeModel::Text(_) => Some(encode_utf8(self.0@)),
            MimeModel::Other(_) => None,
        }
    }

    fn available(&self) -> (r: Vec<MimeType>) {
        text_mime_list()
    }

    fn as_bytes(&self, mime_type: &MimeType) -> (r: Option<Vec<u8>>) {
        match mime_type {
            MimeType::Text(_) => Some(copy_bytes(self.0.as_str().as_bytes())),
            MimeType::Other(_) => None,
        }
    }
}

} // verus!
