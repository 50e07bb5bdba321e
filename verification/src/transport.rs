//! How the client reaches the files of a repository.

use crate::location::Url;
use vstd::prelude::*;

verus! {

/// The kinds of failure that a transport tells apart.
#[derive(Debug, Clone, Copy, PartialEq, Eq, Structural)]
pub enum TransportErrorKind {
    /// The transport does not serve URLs of this scheme.
    UnsupportedUrlScheme,
    /// There is no file at the URL.
    FileNotFound,
    /// Anything else went wrong.
    Other,
}

/// A failure to open or to read the file at `url`.
#[derive(Debug, Clone, PartialEq, Eq)]
pub struct TransportError {
    /// What kind of failure it was.
    pub kind: TransportErrorKind,
    /// The URL that was asked for.
    pub url: String,
}

impl TransportError {
    /// A failure of the given kind at the given URL.
    pub fn new(kind: TransportErrorKind, url: String) -> (e: TransportError)
        ensures
            e.kind == kind,
            e.url@ == url@,
    {
        TransportError { kind, url }
    }

    /// What kind of failure it was.
    pub fn kind(&self) -> (k: TransportErrorKind)
        ensures
            k == self.kind,
    {
        self.kind
    }
}

/// An open file: bytes that arrive in pieces.
///
/// The client trusts nothing that a stream returns. It counts and digests
/// the bytes itself.
pub trait ByteStream {
    /// Reads the next piece, which should hold at most `limit` bytes. An
    /// empty piece means that the file has ended.
    fn read_chunk(&mut self, limit: usize) -> Result<Vec<u8>, TransportError>;
}

/// A way to open the file at a URL, such as a file system or an HTTP
/// client.
pub trait Transport {
    /// The open files that this transport hands out.
    type Stream: ByteStream;

    /// Opens the file at `url`. Where there is none, the error's kind is
    /// `FileNotFound`.
    fn fetch(&self, url: &Url) -> Result<Self::Stream, TransportError>;
}

} // verus!
