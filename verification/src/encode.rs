use vstd::prelude::*;
use crate::error::LabelError;

verus! {

/// The text that `base64::Engine::encode` of the standard engine gives for a
/// byte string: the standard alphabet, with padding.
pub uninterp spec fn base64_text(bytes: Seq<u8>) -> Seq<char>;

/// Longest byte string that is handed to the encoder: its text is a third
/// longer than the bytes and has to fit a `usize` as well.
pub const MAX_ENCODABLE_LEN: usize = usize::MAX / 4 * 3 - 3;

/// Calls `base64::Engine::encode` on `base64::engine::general_purpose::STANDARD`.
/// Inputs whose encoded length overflows, on which the call panics, are left
/// out. The contract only names the text.
#[verifier::external_body]
fn base64_encode(bytes: &Vec<u8>) -> (text: String)
    requires
        bytes@.len() <= MAX_ENCODABLE_LEN,
    ensures
        text@ == base64_text(bytes@),
{
    base64::Engine::encode(&base64::engine::general_purpose::STANDARD, bytes)
}

/// What kind of artifact a byte stream holds.
#[derive(Clone, Copy, Debug, PartialEq, Eq, Structural)]
pub enum MediaType {
    Png,
    Pdf,
}

impl MediaType {
    /// The media type as written in a data URI.
    pub open spec fn text(self) -> Seq<char> {
        match self {
            MediaType::Png => "image/png"@,
            MediaType::Pdf => "application/pdf"@,
        }
    }

    /// The media type as written in a data URI.
    pub fn as_str(&self) -> (s: &'static str)
        ensures
            s@ == self.text(),
    {
        match self {
            MediaType::Png => "image/png",
            MediaType::Pdf => "application/pdf",
        }
    }
}

/// The data URI of a byte stream: the scheme, the media type, the base64
/// marker and the stream in base64.
pub open spec fn data_uri_text(media: MediaType, bytes: Seq<u8>) -> Seq<char> {
    "data:"@ + media.text() + ";base64,"@ + base64_text(bytes)
}

/// What `data_uri` returns for a stream.
pub open spec fn data_uri_outcome(
    media: MediaType,
    bytes: Seq<u8>,
    outcome: Result<String, LabelError>,
) -> bool {
    if bytes.len() <= MAX_ENCODABLE_LEN {
        outcome is Ok && outcome->Ok_0@ == data_uri_text(media, bytes)
    } else {
        outcome == Err::<String, LabelError>(LabelError::Encoding)
    }
}

/// Wraps a finished byte stream for transport as a data URI. Fails with
/// `Encoding` exactly when the stream is too long for its base64 text to be
/// addressed.
pub fn data_uri(media: MediaType, bytes: &Vec<u8>) -> (outcome: Result<String, LabelError>)
    ensures
        data_uri_outcome(media, bytes@, outcome),
{
    if bytes.len() > MAX_ENCODABLE_LEN {
        return Err(LabelError::Encoding);
    }
    let body = base64_encode(bytes);
    let mut uri = String::from_str("data:");
    uri.append(media.as_str());
    uri.append(";base64,");
    uri.append(body.as_str());
    Ok(uri)
}

} // verus!
