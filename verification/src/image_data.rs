//! The data of an image file as a data URI: the MIME type of the file and
//! its bytes in base64.

use base64::Engine;
use vstd::prelude::*;
use vstd::string::*;

use crate::media::{is_image, is_image_path, mime_for_path, mime_of, MimeType};

verus! {

/// The standard base64 encoding, with padding, of a sequence of bytes.
pub uninterp spec fn base64_standard(bytes: Seq<u8>) -> Seq<char>;

/// Why the bytes of a file could not be had.
#[derive(Debug)]
pub enum ReadFailure {
    /// There is no file at the path.
    Missing,
    /// The file is there and could not be read; the cause in words.
    Failed(String),
}

/// Why no image data could be handed out.
#[derive(Debug)]
pub enum LoadError {
    /// The path has no extension of the allow-list.
    UnsupportedType,
    /// There is no file at the path.
    Missing,
    /// The file could not be read; the cause in words.
    Read(String),
}

/// What a `LoadError` says.
pub enum LoadErrorView {
    UnsupportedType,
    Missing,
    Read(Seq<char>),
}

/// The longest input that can be encoded: its encoding, four characters
/// for every three bytes, still has a length that fits the machine.
pub open spec fn max_encodable() -> int {
    (usize::MAX / 4) * 3
}

/// The data URI of `encoded` base64 text of the type `mime`.
pub open spec fn data_uri_of(mime: Seq<char>, encoded: Seq<char>) -> Seq<char> {
    "data:"@ + mime + ";base64,"@ + encoded
}

/// What loading the image data of `path` yields, `bytes` being what was
/// read from the file. A path that is no supported image is refused
/// whatever was read.
pub open spec fn loaded(path: Seq<char>, read: Result<Seq<u8>, LoadErrorView>) -> Result<
    Seq<char>,
    LoadErrorView,
> {
    if !is_image(path) {
        Err(LoadErrorView::UnsupportedType)
    } else {
        match read {
            Ok(bytes) => Ok(data_uri_of(mime_of(path).name(), base64_standard(bytes))),
            Err(e) => Err(e),
        }
    }
}

impl View for LoadError {
    type V = LoadErrorView;

    open spec fn view(&self) -> LoadErrorView {
        match self {
            LoadError::UnsupportedType => LoadErrorView::UnsupportedType,
            LoadError::Missing => LoadErrorView::Missing,
            LoadError::Read(cause) => LoadErrorView::Read(cause@),
        }
    }
}

impl View for ReadFailure {
    type V = LoadErrorView;

    /// A failure to read, as the error that loading reports for it.
    open spec fn view(&self) -> LoadErrorView {
        match self {
            ReadFailure::Missing => LoadErrorView::Missing,
            ReadFailure::Failed(cause) => LoadErrorView::Read(cause@),
        }
    }
}

impl LoadErrorView {
    /// The error in words.
    pub open spec fn message(self) -> Seq<char> {
        match self {
            LoadErrorView::UnsupportedType => "unsupported file type"@,
            LoadErrorView::Missing => "file does not exist"@,
            LoadErrorView::Read(cause) => "read error: "@ + cause,
        }
    }
}

impl LoadError {
    /// The error in words.
    pub fn message(&self) -> (m: String)
        ensures
            m@ == self@.message(),
    {
        match self {
            LoadError::UnsupportedType => String::from_str("unsupported file type"),
            LoadError::Missing => String::from_str("file does not exist"),
            LoadError::Read(cause) => String::from_str("read error: ").concat(cause.as_str()),
        }
    }
}

/// What was read from a file, as loading takes it.
pub open spec fn read_view(read: Result<Vec<u8>, ReadFailure>) -> Result<Seq<u8>, LoadErrorView> {
    match read {
        Ok(bytes) => Ok(bytes@),
        Err(e) => Err(e@),
    }
}

/// Calls `encode` of `base64::engine::general_purpose::STANDARD`: the
/// result is the standard base64 encoding of `bytes`, with padding. The
/// call fails where the length of the encoding does not fit the machine;
/// such inputs are left out.
#[verifier::external_body]
fn encode_standard(bytes: &[u8]) -> (s: String)
    requires
        bytes@.len() <= max_encodable(),
    ensures
        s@ == base64_standard(bytes@),
{
    base64::engine::general_purpose::STANDARD.encode(bytes)
}

/// The longest input that can be encoded.
pub fn max_encodable_len() -> (n: usize)
    ensures
        n == max_encodable(),
{
    (usize::MAX / 4) * 3
}

/// The data URI that carries `encoded` base64 text under the type `mime`.
pub fn data_uri(mime: MimeType, encoded: &str) -> (uri: String)
    ensures
        uri@ == data_uri_of(mime.name(), encoded@),
{
    String::from_str("data:").concat(mime.as_str()).concat(";base64,").concat(encoded)
}

/// The image data of `path` as a data URI, `read` being the outcome of
/// reading the file. A path that is no supported image is an error,
/// whatever was read; a file that is missing or unreadable is an error;
/// otherwise the URI carries the bytes in base64 under the MIME type of
/// the path's extension.
pub fn load_image_data(path: &str, read: Result<Vec<u8>, ReadFailure>) -> (r: Result<
    String,
    LoadError,
>)
    requires
        read matches Ok(bytes) ==> bytes@.len() <= max_encodable(),
    ensures
        match r {
            Ok(uri) => loaded(path@, read_view(read)) == Ok::<Seq<char>, LoadErrorView>(uri@),
            Err(e) => loaded(path@, read_view(read)) == Err::<Seq<char>, LoadErrorView>(e@),
        },
{
    if !is_image_path(path) {
        return Err(LoadError::UnsupportedType);
    }
    match read {
        Ok(bytes) => {
            let encoded = encode_standard(bytes.as_slice());
            Ok(data_uri(mime_for_path(path), encoded.as_str()))
        },
        Err(ReadFailure::Missing) => Err(LoadError::Missing),
        Err(ReadFailure::Failed(cause)) => Err(LoadError::Read(cause)),
    }
}

} // verus!
