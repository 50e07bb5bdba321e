use tough::fetch::{fetch_max_size, fetch_sha256, BoundedReader, FetchGuard};
use tough::{ByteStream, Error, Transport, TransportError, TransportErrorKind, Url};

fn sha256(data: &[u8]) -> Vec<u8> {
    ring::digest::digest(&ring::digest::SHA256, data)
        .as_ref()
        .to_vec()
}

fn hex(bytes: &[u8]) -> String {
    bytes.iter().map(|byte| format!("{:02x}", byte)).collect()
}

/// A stream that hands out given pieces, and then fails or ends.
struct Pieces {
    pieces: Vec<Vec<u8>>,
    next: usize,
    fail_at_end: bool,
    limits_seen: Vec<usize>,
}

impl Pieces {
    fn of(pieces: &[&[u8]]) -> Pieces {
        Pieces {
            pieces: pieces.iter().map(|piece| piece.to_vec()).collect(),
            next: 0,
            fail_at_end: false,
            limits_seen: Vec::new(),
        }
    }
}

impl ByteStream for Pieces {
    fn read_chunk(&mut self, limit: usize) -> Result<Vec<u8>, TransportError> {
        self.limits_seen.push(limit);
        if self.next < self.pieces.len() {
            self.next += 1;
            Ok(self.pieces[self.next - 1].clone())
        } else if self.fail_at_end {
            Err(TransportError::new(
                TransportErrorKind::Other,
                "pieces:".to_string(),
            ))
        } else {
            Ok(Vec::new())
        }
    }
}

/// A stream that never ends.
struct Endless;

impl ByteStream for Endless {
    fn read_chunk(&mut self, limit: usize) -> Result<Vec<u8>, TransportError> {
        Ok(vec![0x55; limit.min(1000).max(1)])
    }
}

struct OneFile(Vec<u8>);

impl Transport for OneFile {
    type Stream = Pieces;

    fn fetch(&self, url: &Url) -> Result<Pieces, TransportError> {
        if url.as_str().ends_with("/file") {
            Ok(Pieces::of(&[&self.0]))
        } else {
            Err(TransportError::new(
                TransportErrorKind::FileNotFound,
                url.as_str().to_string(),
            ))
        }
    }
}

const ABC_SHA256: &str = "ba7816bf8f01cfea414140de5dae2223b00361a396177a9cb410ff61f20015ad";
const EMPTY_SHA256: &str = "e3b0c44298fc1c149afbf4c8996fb92427ae41e4649b934ca495991b7852b855";

#[test]
fn guard_lets_max_size_bytes_through_and_no_more() {
    let mut guard = FetchGuard::max_size(5, "five bytes");
    assert_eq!(guard.accept(b"abc"), Ok(()));
    assert_eq!(guard.accept(b""), Ok(()));
    assert_eq!(guard.accept(b"de"), Ok(()));
    assert_eq!(guard.finish(), Ok(()));
    let overrun = Error::MaxSizeExceeded {
        max_size: 5,
        specifier: "five bytes",
    };
    assert_eq!(guard.accept(b"f"), Err(overrun.clone()));
    // After an overrun nothing is let through, and the download fails.
    assert_eq!(guard.accept(b""), Err(overrun.clone()));
    assert_eq!(guard.finish(), Err(overrun));
}

#[test]
fn guard_refuses_a_piece_that_crosses_the_limit() {
    let mut guard = FetchGuard::max_size(4, "limit");
    assert_eq!(guard.accept(b"abc"), Ok(()));
    assert!(guard.accept(b"de").is_err());
    let mut guard = FetchGuard::max_size(0, "limit");
    assert_eq!(guard.accept(b""), Ok(()));
    assert!(guard.accept(b"a").is_err());
    let mut guard = FetchGuard::max_size(u64::MAX, "limit");
    assert_eq!(guard.accept(&vec![0; 100_000]), Ok(()));
}

#[test]
fn guard_checks_the_digest_of_all_pieces_together() {
    let digest = sha256(b"abc");
    assert_eq!(hex(&digest), ABC_SHA256);
    let mut guard = FetchGuard::sha256(3, "length", &digest, "abc.txt");
    assert_eq!(guard.accept(b"a"), Ok(()));
    assert_eq!(guard.accept(b"bc"), Ok(()));
    assert_eq!(guard.finish(), Ok(()));
    // It can be asked again.
    assert_eq!(guard.finish(), Ok(()));

    let mut guard = FetchGuard::sha256(3, "length", &digest, "abc.txt");
    assert_eq!(guard.accept(b"abd"), Ok(()));
    assert_eq!(
        guard.finish(),
        Err(Error::HashMismatch {
            context: "abc.txt".to_string(),
            calculated: hex(&sha256(b"abd")),
            expected: ABC_SHA256.to_string(),
        })
    );

    // Nothing at all has the digest of the empty string.
    let mut guard = FetchGuard::sha256(3, "length", &digest, "abc.txt");
    match guard.finish() {
        Err(Error::HashMismatch { calculated, .. }) => assert_eq!(calculated, EMPTY_SHA256),
        other => panic!("unexpected result: {:?}", other),
    }
    assert_eq!(guard.accept(b"abc"), Ok(()));
    assert_eq!(guard.finish(), Ok(()));
}

#[test]
fn guard_with_digest_has_a_limit_too() {
    let digest = sha256(b"abcd");
    let mut guard = FetchGuard::sha256(3, "length", &digest, "abcd.txt");
    assert_eq!(
        guard.accept(b"abcd"),
        Err(Error::MaxSizeExceeded {
            max_size: 3,
            specifier: "length"
        })
    );
    // No download is longer than what can be digested.
    let mut guard = FetchGuard::sha256(u64::MAX, "length", &digest, "abcd.txt");
    assert_eq!(guard.accept(b"abcd"), Ok(()));
    assert_eq!(guard.finish(), Ok(()));
}

#[test]
fn reader_hands_out_pieces_and_reports_the_end() {
    let stream = Pieces::of(&[b"ab", b"cde", b"f"]);
    let mut reader = BoundedReader::new(stream, FetchGuard::max_size(6, "limit"));
    assert_eq!(reader.read(100).unwrap(), b"ab");
    assert_eq!(reader.read(100).unwrap(), b"cde");
    assert_eq!(reader.read(100).unwrap(), b"f");
    assert_eq!(reader.read(100).unwrap(), b"");
    assert_eq!(reader.read(100).unwrap(), b"");
}

#[test]
fn reader_rejects_the_byte_after_max_size() {
    let data = vec![7u8; 1000];
    let mut buf = Vec::new();
    let mut reader = BoundedReader::new(Pieces::of(&[&data]), FetchGuard::max_size(1000, "x"));
    assert_eq!(reader.read_to_end(&mut buf), Ok(1000));
    assert_eq!(buf, data);
    let mut reader = BoundedReader::new(Pieces::of(&[&data]), FetchGuard::max_size(999, "x"));
    assert_eq!(
        reader.read_to_end(&mut Vec::new()),
        Err(Error::MaxSizeExceeded {
            max_size: 999,
            specifier: "x"
        })
    );
    // Piece by piece, the first 999 bytes come out and the next one fails.
    let pieces: Vec<&[u8]> = data.chunks(333).collect();
    let mut reader = BoundedReader::new(Pieces::of(&pieces), FetchGuard::max_size(999, "x"));
    for _ in 0..3 {
        assert_eq!(reader.read(333).unwrap().len(), 333);
    }
    assert!(reader.read(333).is_err());
    assert!(reader.read(333).is_err());
}

#[test]
fn reader_ends_an_endless_stream() {
    let mut reader = BoundedReader::new(Endless, FetchGuard::max_size(1 << 20, "one MiB"));
    let mut buf = Vec::new();
    assert_eq!(
        reader.read_to_end(&mut buf),
        Err(Error::MaxSizeExceeded {
            max_size: 1 << 20,
            specifier: "one MiB"
        })
    );
    assert!(buf.len() <= 1 << 20);
    let reader = BoundedReader::new(Endless, FetchGuard::max_size(12_345, "limit"));
    assert!(reader.read_all().is_err());
}

#[test]
fn reader_appends_to_what_the_buffer_holds() {
    let mut reader = BoundedReader::new(Pieces::of(&[b"cd", b"ef"]), FetchGuard::max_size(9, "x"));
    let mut buf = b"ab".to_vec();
    assert_eq!(reader.read_to_end(&mut buf), Ok(4));
    assert_eq!(buf, b"abcdef");
    // What a single read took is not read again.
    let mut reader = BoundedReader::new(Pieces::of(&[b"cd", b"ef"]), FetchGuard::max_size(9, "x"));
    assert_eq!(reader.read(2).unwrap(), b"cd");
    assert_eq!(reader.read_all().unwrap(), b"ef");
}

#[test]
fn reader_rejects_a_single_flipped_byte() {
    let data = b"The quick brown fox jumps over the lazy dog".to_vec();
    let digest = sha256(&data);
    let guard = || FetchGuard::sha256(data.len() as u64, "length", &digest, "fox");
    let reader = BoundedReader::new(Pieces::of(&[&data[..10], &data[10..]]), guard());
    assert_eq!(reader.read_all().unwrap(), data);
    for position in [0, 17, data.len() - 1] {
        let mut flipped = data.clone();
        flipped[position] ^= 0x01;
        let reader = BoundedReader::new(Pieces::of(&[&flipped]), guard());
        match reader.read_all() {
            Err(Error::HashMismatch {
                context,
                calculated,
                expected,
            }) => {
                assert_eq!(context, "fox");
                assert_eq!(calculated, hex(&sha256(&flipped)));
                assert_eq!(expected, hex(&digest));
            }
            other => panic!("unexpected result: {:?}", other),
        }
    }
    // A download that ends early has another digest.
    let reader = BoundedReader::new(Pieces::of(&[&data[..20]]), guard());
    assert!(matches!(reader.read_all(), Err(Error::HashMismatch { .. })));
}

#[test]
fn reader_passes_transport_failures_on() {
    let mut stream = Pieces::of(&[b"abc"]);
    stream.fail_at_end = true;
    let mut reader = BoundedReader::new(stream, FetchGuard::max_size(10, "x"));
    let mut buf = Vec::new();
    assert_eq!(
        reader.read_to_end(&mut buf),
        Err(Error::Transport {
            kind: TransportErrorKind::Other,
            url: "pieces:".to_string()
        })
    );
    assert_eq!(buf, b"abc");
}

#[test]
fn fetch_opens_the_file_under_watch() {
    let transport = OneFile(b"abc".to_vec());
    let file = Url::parse("https://example.org/file").unwrap();
    let other = Url::parse("https://example.org/other").unwrap();

    let reader = fetch_max_size(&transport, &file, 3, "limit").ok().unwrap();
    assert_eq!(reader.read_all().unwrap(), b"abc");
    let reader = fetch_max_size(&transport, &file, 2, "limit").ok().unwrap();
    assert_eq!(
        reader.read_all(),
        Err(Error::MaxSizeExceeded {
            max_size: 2,
            specifier: "limit"
        })
    );
    assert_eq!(
        fetch_max_size(&transport, &other, 3, "limit").err().unwrap(),
        Error::Transport {
            kind: TransportErrorKind::FileNotFound,
            url: "https://example.org/other".to_string()
        }
    );

    let digest = sha256(b"abc");
    let reader = fetch_sha256(&transport, &file, 3, "limit", &digest).ok().unwrap();
    assert_eq!(reader.read_all().unwrap(), b"abc");
    let reader = fetch_sha256(&transport, &file, 3, "limit", &sha256(b"abd")).ok().unwrap();
    match reader.read_all() {
        Err(Error::HashMismatch { context, .. }) => assert_eq!(context, "https://example.org/file"),
        other => panic!("unexpected result: {:?}", other),
    }
    let reader = fetch_sha256(&transport, &file, 2, "limit", &digest).ok().unwrap();
    assert!(matches!(reader.read_all(), Err(Error::MaxSizeExceeded { .. })));
    assert!(fetch_sha256(&transport, &other, 3, "limit", &digest).is_err());
}

#[test]
fn read_to_end_asks_for_pieces_of_bounded_size() {
    let mut stream = Pieces::of(&[b"abc"]);
    stream.limits_seen.clear();
    let mut reader = BoundedReader::new(stream, FetchGuard::max_size(10, "x"));
    assert_eq!(reader.read_to_end(&mut Vec::new()), Ok(3));
    assert_eq!(tough::fetch::CHUNK_SIZE, 8192);
}
