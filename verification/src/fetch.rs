//! Downloads that are cut off at a size and checked against a digest.

use crate::digest::{
    absorbed, context_clone, context_finish, context_new, context_update, sha256,
    MAX_DIGEST_INPUT,
};
use crate::error::Error;
use crate::location::Url;
use crate::text::{bytes_copy, bytes_equal, hex, hex_string};
use crate::transport::{ByteStream, Transport};
use vstd::prelude::*;
use vstd::string::*;

verus! {

/// How many bytes `read_to_end` asks a stream for at a time.
pub const CHUNK_SIZE: usize = 8192;

/// Feeds a piece to the digest context, where there is one.
fn absorb(context: &mut Option<ring::digest::Context>, chunk: &[u8])
    ensures
        match *old(context) {
            Some(before) => *final(context) matches Some(after) && absorbed(after) == absorbed(
                before,
            ) + chunk@,
            None => *final(context) is None,
        },
{
    match context {
        Some(inner) => {
            context_update(inner, chunk);
        },
        None => {},
    }
}

/// The watch over one download: how many bytes may come, how many have
/// come, and the digest that all of them must have.
pub struct FetchGuard {
    max_size: u64,
    specifier: &'static str,
    seen: u64,
    overrun: bool,
    context: Option<ring::digest::Context>,
    expected: Vec<u8>,
    label: String,
    delivered: Ghost<Seq<u8>>,
}

impl FetchGuard {
    /// Whether the guard's count and digest agree with what it let
    /// through. Every guard that this module hands out is well-formed.
    pub closed spec fn wf(&self) -> bool {
        &&& self.seen == self.delivered@.len()
        &&& self.seen <= self.max_size
        &&& self.context matches Some(context) ==> absorbed(context) == self.delivered@
            && self.max_size <= MAX_DIGEST_INPUT
    }

    /// The bytes that were let through so far, in order.
    pub closed spec fn delivered(&self) -> Seq<u8> {
        self.delivered@
    }

    /// The number of bytes that may come at most.
    pub closed spec fn limit(&self) -> u64 {
        self.max_size
    }

    /// What set the limit: the words that an overrun is reported with.
    pub closed spec fn specifier(&self) -> &'static str {
        self.specifier
    }

    /// The digest that the whole download must have, where one is asked
    /// for.
    pub closed spec fn expected(&self) -> Option<Seq<u8>> {
        if self.context is Some {
            Some(self.expected@)
        } else {
            None
        }
    }

    /// Whether more bytes came than may come.
    pub closed spec fn overrun(&self) -> bool {
        self.overrun
    }

    /// What names the download where its digest is wrong.
    pub closed spec fn label(&self) -> Seq<char> {
        self.label@
    }

    /// Whether what was let through has the digest that is asked for.
    pub open spec fn digest_matches(&self) -> bool {
        self.expected() matches Some(digest) ==> sha256(self.delivered()) == digest
    }

    /// A guard that lets `max_size` bytes through and asks for no digest.
    pub fn max_size(max_size: u64, specifier: &'static str) -> (guard: FetchGuard)
        ensures
            guard.wf(),
            guard.delivered() == Seq::<u8>::empty(),
            guard.limit() == max_size,
            guard.specifier() == specifier,
            guard.expected() is None,
            !guard.overrun(),
    {
        FetchGuard {
            max_size,
            specifier,
            seen: 0,
            overrun: false,
            context: None,
            expected: Vec::new(),
            label: String::new(),
            delivered: Ghost(Seq::empty()),
        }
    }

    /// A guard that lets `size` bytes through and asks that all of them
    /// together have the SHA-256 digest `digest`. No more bytes are let
    /// through than can be digested.
    pub fn sha256(size: u64, specifier: &'static str, digest: &[u8], label: &str) -> (guard:
        FetchGuard)
        ensures
            guard.wf(),
            guard.delivered() == Seq::<u8>::empty(),
            guard.limit() == if size <= MAX_DIGEST_INPUT {
                size
            } else {
                MAX_DIGEST_INPUT
            },
            guard.specifier() == specifier,
            guard.expected() == Some(digest@),
            guard.label() == label@,
            !guard.overrun(),
    {
        let max_size = if size <= MAX_DIGEST_INPUT {
            size
        } else {
            MAX_DIGEST_INPUT
        };
        FetchGuard {
            max_size,
            specifier,
            seen: 0,
            overrun: false,
            context: Some(context_new()),
            expected: bytes_copy(digest),
            label: String::from_str(label),
            delivered: Ghost(Seq::empty()),
        }
    }

    /// Takes note of a piece that arrived. The piece is let through if it
    /// fits under the limit together with what came before; the first byte
    /// past the limit is an overrun, and after an overrun nothing is let
    /// through any more.
    pub fn accept(&mut self, chunk: &[u8]) -> (r: Result<(), Error>)
        requires
            old(self).wf(),
        ensures
            final(self).wf(),
            final(self).delivered().len() <= final(self).limit(),
            final(self).limit() == old(self).limit(),
            final(self).specifier() == old(self).specifier(),
            final(self).expected() == old(self).expected(),
            final(self).label() == old(self).label(),
            match r {
                Ok(()) => {
                    &&& !old(self).overrun()
                    &&& old(self).delivered().len() + chunk@.len() <= old(self).limit()
                    &&& final(self).delivered() == old(self).delivered() + chunk@
                    &&& !final(self).overrun()
                },
                Err(e) => {
                    &&& old(self).overrun() || old(self).delivered().len() + chunk@.len()
                        > old(self).limit()
                    &&& final(self).delivered() == old(self).delivered()
                    &&& final(self).overrun()
                    &&& e == Error::MaxSizeExceeded {
                        max_size: old(self).limit(),
                        specifier: old(self).specifier(),
                    }
                },
            },
    {
        let room = self.max_size - self.seen;
        if self.overrun || chunk.len() as u64 > room {
            self.overrun = true;
            Err(Error::MaxSizeExceeded { max_size: self.max_size, specifier: self.specifier })
        } else {
            absorb(&mut self.context, chunk);
            self.seen = self.seen + chunk.len() as u64;
            self.delivered = Ghost(self.delivered@ + chunk@);
            Ok(())
        }
    }

    /// Judges the download once its stream has ended: it stands if no
    /// overrun happened and what was let through has the digest that is
    /// asked for.
    pub fn finish(&self) -> (r: Result<(), Error>)
        requires
            self.wf(),
        ensures
            match r {
                Ok(()) => !self.overrun() && self.digest_matches(),
                Err(e) => if self.overrun() {
                    e == Error::MaxSizeExceeded {
                        max_size: self.limit(),
                        specifier: self.specifier(),
                    }
                } else {
                    &&& self.expected() matches Some(digest)
                    &&& sha256(self.delivered()) != digest
                    &&& e matches Error::HashMismatch { context, calculated, expected }
                    &&& context@ == self.label()
                    &&& calculated@ == hex(sha256(self.delivered()))
                    &&& expected@ == hex(digest)
                },
            },
    {
        if self.overrun {
            return Err(
                Error::MaxSizeExceeded { max_size: self.max_size, specifier: self.specifier },
            );
        }
        match &self.context {
            None => Ok(()),
            Some(context) => {
                let calculated = context_finish(context_clone(context));
                if bytes_equal(&calculated, &self.expected) {
                    Ok(())
                } else {
                    Err(
                        Error::HashMismatch {
                            context: self.label.clone(),
                            calculated: hex_string(calculated.as_slice()),
                            expected: hex_string(self.expected.as_slice()),
                        },
                    )
                }
            },
        }
    }
}

/// A download in progress: an open file and the guard that watches it.
///
/// The bytes come out before their digest can be checked. Whoever reads
/// them may rely on them only once a read has returned an empty piece; if a
/// read fails, everything that was read before must be thrown away.
pub struct BoundedReader<S: ByteStream> {
    stream: S,
    guard: FetchGuard,
    finished: bool,
}

impl<S: ByteStream> BoundedReader<S> {
    /// Whether the reader's guard is well-formed and the reader reports the
    /// end of the download only where the guard approved of it. Every
    /// reader that this module hands out is well-formed.
    pub closed spec fn wf(&self) -> bool {
        &&& self.guard.wf()
        &&& self.finished ==> !self.guard.overrun() && self.guard.digest_matches()
    }

    /// The bytes that were handed out so far, in order.
    pub closed spec fn delivered(&self) -> Seq<u8> {
        self.guard.delivered()
    }

    /// The number of bytes that are handed out at most.
    pub closed spec fn limit(&self) -> u64 {
        self.guard.limit()
    }

    /// What set the limit: the words that an overrun is reported with.
    pub closed spec fn specifier(&self) -> &'static str {
        self.guard.specifier()
    }

    /// The digest that the whole download must have, where one is asked
    /// for.
    pub closed spec fn expected(&self) -> Option<Seq<u8>> {
        self.guard.expected()
    }

    /// Whether the end of the download was reached and approved of.
    pub closed spec fn finished(&self) -> bool {
        self.finished
    }

    /// Whether what was handed out stays under the limit and has the digest
    /// that is asked for.
    pub open spec fn sound(&self) -> bool {
        &&& self.delivered().len() <= self.limit()
        &&& self.expected() matches Some(digest) ==> sha256(self.delivered()) == digest
    }

    /// Whether `e` is a failure that a read of this reader can end in: a
    /// failure of the transport, an overrun of the limit, or, at the end of
    /// the stream, a digest that is not the expected one.
    pub open spec fn read_failure(&self, e: Error) -> bool {
        match e {
            Error::Transport { .. } => true,
            Error::MaxSizeExceeded { max_size, specifier } => max_size == self.limit()
                && specifier == self.specifier(),
            Error::HashMismatch { context, calculated, expected } => {
                &&& self.expected() matches Some(digest)
                &&& sha256(self.delivered()) != digest
                &&& calculated@ == hex(sha256(self.delivered()))
                &&& expected@ == hex(digest)
            },
            _ => false,
        }
    }

    /// Puts a stream under the watch of a guard.
    pub fn new(stream: S, guard: FetchGuard) -> (reader: BoundedReader<S>)
        requires
            guard.wf(),
        ensures
            reader.wf(),
            reader.delivered() == guard.delivered(),
            reader.limit() == guard.limit(),
            reader.specifier() == guard.specifier(),
            reader.expected() == guard.expected(),
            !reader.finished(),
    {
        BoundedReader { stream, guard, finished: false }
    }

    /// Reads the next piece of the download, asking the stream for at most
    /// `limit` bytes. An empty piece means that the stream has ended and
    /// that the whole download stands: it stayed under the limit and has
    /// the digest that was asked for.
    pub fn read(&mut self, limit: usize) -> (r: Result<Vec<u8>, Error>)
        requires
            old(self).wf(),
        ensures
            final(self).wf(),
            final(self).limit() == old(self).limit(),
            final(self).specifier() == old(self).specifier(),
            final(self).expected() == old(self).expected(),
            old(self).finished() ==> final(self).finished(),
            final(self).finished() ==> final(self).sound(),
            match r {
                Ok(chunk) => {
                    &&& final(self).delivered() == old(self).delivered() + chunk@
                    &&& final(self).delivered().len() <= final(self).limit()
                    &&& final(self).finished() == (chunk@.len() == 0)
                },
                Err(e) => {
                    &&& final(self).delivered() == old(self).delivered()
                    &&& !final(self).finished()
                    &&& final(self).read_failure(e)
                },
            },
    {
        if self.finished {
            let chunk: Vec<u8> = Vec::new();
            return Ok(chunk);
        }
        match self.stream.read_chunk(limit) {
            Err(e) => Err(Error::Transport { kind: e.kind, url: e.url }),
            Ok(chunk) => {
                if chunk.len() == 0 {
                    match self.guard.finish() {
                        Ok(()) => {
                            self.finished = true;
                            Ok(chunk)
                        },
                        Err(e) => Err(e),
                    }
                } else {
                    match self.guard.accept(chunk.as_slice()) {
                        Ok(()) => Ok(chunk),
                        Err(e) => Err(e),
                    }
                }
            },
        }
    }

    /// Reads the rest of the download and appends it to `buf`. Returns the
    /// number of bytes that were appended. On success the whole download
    /// stands; on failure `buf` may hold bytes that must not be used.
    pub fn read_to_end(&mut self, buf: &mut Vec<u8>) -> (r: Result<usize, Error>)
        requires
            old(self).wf(),
        ensures
            final(self).wf(),
            final(self).limit() == old(self).limit(),
            final(self).specifier() == old(self).specifier(),
            final(self).expected() == old(self).expected(),
            match r {
                Ok(n) => {
                    &&& final(self).finished()
                    &&& final(self).sound()
                    &&& final(buf)@.len() == old(buf)@.len() + n
                    &&& final(buf)@.take(old(buf)@.len() as int) == old(buf)@
                    &&& final(self).delivered() == old(self).delivered() + final(buf)@.skip(
                        old(buf)@.len() as int,
                    )
                },
                Err(e) => final(self).read_failure(e),
            },
    {
        let start = buf.len();
        let ghost before = self.delivered();
        let ghost buf_before = buf@;
        let ghost limit = self.limit();
        let ghost specifier = self.specifier();
        let ghost expected = self.expected();
        loop
            invariant
                limit == old(self).limit(),
                specifier == old(self).specifier(),
                expected == old(self).expected(),
                before == old(self).delivered(),
                buf_before == old(buf)@,
                self.wf(),
                self.limit() == limit,
                self.specifier() == specifier,
                self.expected() == expected,
                start == buf_before.len(),
                start <= buf@.len(),
                buf@.take(start as int) == buf_before,
                self.delivered() == before + buf@.skip(start as int),
                self.delivered().len() <= self.limit() || self.finished(),
                self.finished() ==> self.sound(),
            decreases
                    (if self.finished() {
                        0
                    } else {
                        self.limit() - self.delivered().len() + 1
                    }),
        {
            let mut chunk = match self.read(CHUNK_SIZE) {
                Ok(chunk) => chunk,
                Err(e) => {
                    return Err(e);
                },
            };
            if chunk.len() == 0 {
                return Ok(buf.len() - start);
            }
            buf.append(&mut chunk);
        }
    }

    /// Reads the rest of the download. On success the whole download
    /// stands: it stayed under the limit and has the digest that was asked
    /// for.
    pub fn read_all(self) -> (r: Result<Vec<u8>, Error>)
        requires
            self.wf(),
        ensures
            match r {
                Ok(bytes) => {
                    &&& self.delivered().len() + bytes@.len() <= self.limit()
                    &&& self.expected() matches Some(digest) ==> sha256(
                        self.delivered() + bytes@,
                    ) == digest
                },
                Err(e) => match e {
                    Error::Transport { .. } => true,
                    Error::MaxSizeExceeded { max_size, specifier } => max_size == self.limit()
                        && specifier == self.specifier(),
                    Error::HashMismatch { .. } => self.expected() is Some,
                    _ => false,
                },
            },
    {
        let mut reader = self;
        let mut bytes: Vec<u8> = Vec::new();
        match reader.read_to_end(&mut bytes) {
            Ok(_) => {
                assert(bytes@.skip(0) =~= bytes@);
                Ok(bytes)
            },
            Err(e) => Err(e),
        }
    }
}

/// Opens the file at `url` for a download of at most `max_size` bytes. If
/// more bytes come, reading fails with an overrun that names `specifier`.
/// A stream that ends early is no failure.
pub fn fetch_max_size<T: Transport>(
    transport: &T,
    url: &Url,
    max_size: u64,
    specifier: &'static str,
) -> (r: Result<BoundedReader<T::Stream>, Error>)
    ensures
        match r {
            Ok(reader) => {
                &&& reader.wf()
                &&& reader.delivered() == Seq::<u8>::empty()
                &&& reader.limit() == max_size
                &&& reader.specifier() == specifier
                &&& reader.expected() is None
                &&& !reader.finished()
            },
            Err(e) => e is Transport,
        },
{
    match transport.fetch(url) {
        Ok(stream) => Ok(BoundedReader::new(stream, FetchGuard::max_size(max_size, specifier))),
        Err(e) => Err(Error::Transport { kind: e.kind, url: e.url }),
    }
}

/// Opens the file at `url` for a download of at most `size` bytes which
/// must have the SHA-256 digest `sha256`. If more bytes come, reading fails
/// with an overrun that names `specifier`; once the stream has ended,
/// reading fails if the digest of all that was read is another. No
/// download is longer than what can be digested.
pub fn fetch_sha256<T: Transport>(
    transport: &T,
    url: &Url,
    size: u64,
    specifier: &'static str,
    sha256: &[u8],
) -> (r: Result<BoundedReader<T::Stream>, Error>)
    ensures
        match r {
            Ok(reader) => {
                &&& reader.wf()
                &&& reader.delivered() == Seq::<u8>::empty()
                &&& reader.limit() == if size <= MAX_DIGEST_INPUT {
                    size
                } else {
                    MAX_DIGEST_INPUT
                }
                &&& reader.specifier() == specifier
                &&& reader.expected() == Some(sha256@)
                &&& !reader.finished()
            },
            Err(e) => e is Transport,
        },
{
    match transport.fetch(url) {
        Ok(stream) => Ok(
            BoundedReader::new(stream, FetchGuard::sha256(size, specifier, sha256, url.as_str())),
        ),
        Err(e) => Err(Error::Transport { kind: e.kind, url: e.url }),
    }
}

} // verus!
