//! The application side of the worker channels: turning the reply to a
//! request, or its absence when the worker is gone, into a result.
use vstd::prelude::*;
use vstd::utf8::*;
use crate::data::ClipboardData;
use crate::error::ClipboardError;
use crate::mime::{string_views, text_mime_string, text_str, Text};
use crate::worker::Reply;

verus! {

/// The result of a load, from the worker's reply; `None` means the reply
/// channel is closed because the worker terminated.
pub fn reply_to_data(reply: Option<Result<Reply, ClipboardError>>) -> (r: Result<ClipboardData, ClipboardError>)
    ensures
        match reply {
            None => r matches Err(ClipboardError::WorkerDead),
            Some(Ok(Reply::Data(d))) => r == Ok::<ClipboardData, ClipboardError>(d),
            Some(Ok(_)) => r matches Err(ClipboardError::Empty),
            Some(Err(e)) => r == Err::<ClipboardData, ClipboardError>(e),
        },
{
    match reply {
        None => Err(ClipboardError::WorkerDead),
        Some(Ok(Reply::Data(d))) => Ok(d),
        Some(Ok(_)) => Err(ClipboardError::Empty),
        Some(Err(e)) => Err(e),
    }
}

/// The result of a MIME types query, from the worker's reply; a reply of
/// another kind counts as no type.
pub fn reply_to_mime_types(reply: Option<Result<Reply, ClipboardError>>) -> (r: Result<Vec<String>, ClipboardError>)
    ensures
        match reply {
            None => r matches Err(ClipboardError::WorkerDead),
            Some(Ok(Reply::MimeTypes(t))) => r == Ok::<Vec<String>, ClipboardError>(t),
            Some(Ok(_)) => r matches Ok(t) && t@.len() == 0,
            Some(Err(e)) => r == Err::<Vec<String>, ClipboardError>(e),
        },
{
    match reply {
        None => Err(ClipboardError::WorkerDead),
        Some(Ok(Reply::MimeTypes(t))) => Ok(t),
        Some(Ok(_)) => Ok(Vec::new()),
        Some(Err(e)) => Err(e),
    }
}

/// Loaded data as text: its UTF-8 decoding, or `InvalidUtf8`.
pub fn data_to_text(loaded: Result<ClipboardData, ClipboardError>) -> (r: Result<String, ClipboardError>)
    ensures
        match loaded {
            Ok(d) => if valid_utf8(d.data@) {
                r matches Ok(s) && s@ == decode_utf8(d.data@)
            } else {
                r matches Err(ClipboardError::InvalidUtf8)
            },
            Err(e) => r == Err::<String, ClipboardError>(e),
        },
{
    match loaded {
        Ok(d) => match d.as_text() {
            Some(s) => Ok(s.to_owned()),
            None => Err(ClipboardError::InvalidUtf8),
        },
        Err(e) => Err(e),
    }
}

/// The MIME types that text is stored and loaded as, by preference.
pub fn text_mime_types() -> (r: Vec<String>)
    ensures
        string_views(r@) == seq![text_str(Text::TextPlainUtf8), text_str(Text::Utf8String), text_str(Text::TextPlain)],
{
    let mut v: Vec<String> = Vec::new();
    v.push(text_mime_string(Text::TextPlainUtf8));
    v.push(text_mime_string(Text::Utf8String));
    v.push(text_mime_string(Text::TextPlain));
    assert(string_views(v@) =~= seq![text_str(Text::TextPlainUtf8), text_str(Text::Utf8String), text_str(Text::TextPlain)]);
    v
}

} // verus!
