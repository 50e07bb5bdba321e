use tough::request::{
    delegated_role_request, open, root_request, snapshot_request, target_request,
    targets_request, timestamp_request, FetchRequest,
};
use tough::schema::{SnapshotMeta, Target, TimestampMeta};
use tough::{ByteStream, Error, Transport, TransportError, TransportErrorKind, Url};

fn base() -> Url {
    Url::parse("https://example.org/metadata/").unwrap()
}

fn parts(request: &FetchRequest) -> (&str, u64, &str, Option<&[u8]>) {
    (
        request.url.as_str(),
        request.max_size,
        request.specifier,
        request.sha256.as_deref(),
    )
}

#[test]
fn root_is_asked_for_by_version() {
    let request = root_request(&base(), 2, 1 << 20).unwrap();
    assert_eq!(
        parts(&request),
        (
            "https://example.org/metadata/2.root.json",
            1 << 20,
            "max_root_size argument",
            None
        )
    );
    let request = root_request(&base(), u64::MAX as u128 + 1, 7).unwrap();
    assert_eq!(
        request.url.as_str(),
        "https://example.org/metadata/18446744073709551616.root.json"
    );
}

#[test]
fn timestamp_is_asked_for_by_its_fixed_name() {
    let request = timestamp_request(&base(), 4096).unwrap();
    assert_eq!(
        parts(&request),
        (
            "https://example.org/metadata/timestamp.json",
            4096,
            "max_timestamp_size argument",
            None
        )
    );
}

#[test]
fn snapshot_is_asked_for_as_the_timestamp_lists_it() {
    let listed = TimestampMeta {
        length: 515,
        sha256: vec![0xab; 32],
        version: 12,
    };
    let request = snapshot_request(&base(), false, &listed).unwrap();
    assert_eq!(
        parts(&request),
        (
            "https://example.org/metadata/snapshot.json",
            515,
            "timestamp.json",
            Some(&[0xab; 32][..])
        )
    );
    let request = snapshot_request(&base(), true, &listed).unwrap();
    assert_eq!(
        request.url.as_str(),
        "https://example.org/metadata/12.snapshot.json"
    );
}

#[test]
fn targets_are_asked_for_as_the_snapshot_lists_them() {
    let full = SnapshotMeta {
        length: Some(1001),
        sha256: Some(vec![0xcd; 32]),
        version: 3,
    };
    let request = targets_request(&base(), true, &full, 5000).unwrap();
    assert_eq!(
        parts(&request),
        (
            "https://example.org/metadata/3.targets.json",
            1001,
            "snapshot.json",
            Some(&[0xcd; 32][..])
        )
    );
    let bare = SnapshotMeta {
        length: None,
        sha256: None,
        version: 3,
    };
    let request = targets_request(&base(), false, &bare, 5000).unwrap();
    assert_eq!(
        parts(&request),
        (
            "https://example.org/metadata/targets.json",
            5000,
            "max_targets_size parameter",
            None
        )
    );
    // A digest without a length, and a length without a digest.
    let digest_only = SnapshotMeta {
        length: None,
        sha256: Some(vec![1; 32]),
        version: 3,
    };
    let request = targets_request(&base(), false, &digest_only, 5000).unwrap();
    assert_eq!(request.max_size, 5000);
    assert_eq!(request.specifier, "max_targets_size parameter");
    assert_eq!(request.sha256, Some(vec![1; 32]));
    let length_only = SnapshotMeta {
        length: Some(9),
        sha256: None,
        version: 3,
    };
    let request = targets_request(&base(), false, &length_only, 5000).unwrap();
    assert_eq!((request.max_size, request.specifier), (9, "snapshot.json"));
    assert_eq!(request.sha256, None);
}

#[test]
fn delegated_role_is_asked_for_by_its_name() {
    let listed = SnapshotMeta {
        length: Some(10),
        sha256: Some(vec![2; 32]),
        version: 8,
    };
    // Neither the listed length nor the listed digest is used.
    let request = delegated_role_request(&base(), false, &listed, "role1", 5000).unwrap();
    assert_eq!(
        parts(&request),
        (
            "https://example.org/metadata/role1.json",
            5000,
            "max_targets_size parameter",
            None
        )
    );
    let request = delegated_role_request(&base(), true, &listed, "role1", 5000).unwrap();
    assert_eq!(
        request.url.as_str(),
        "https://example.org/metadata/8.role1.json"
    );
}

#[test]
fn target_is_asked_for_by_name_or_by_digest_and_name() {
    let targets_base = Url::parse("https://example.org/targets/").unwrap();
    let target = Target {
        length: 31,
        sha256: vec![0xc1, 0x4a, 0xeb, 0x4a],
    };
    let request = target_request(&targets_base, false, &target, "file1.txt").unwrap();
    assert_eq!(
        parts(&request),
        (
            "https://example.org/targets/file1.txt",
            31,
            "targets.json",
            Some(&[0xc1, 0x4a, 0xeb, 0x4a][..])
        )
    );
    let request = target_request(&targets_base, true, &target, "file1.txt").unwrap();
    assert_eq!(
        request.url.as_str(),
        "https://example.org/targets/c14aeb4a.file1.txt"
    );
    let request = target_request(&targets_base, true, &target, "dir/file 1.txt").unwrap();
    assert_eq!(
        request.url.as_str(),
        "https://example.org/targets/c14aeb4a.dir/file%201.txt"
    );
}

#[test]
fn request_fails_where_the_base_takes_no_file_name() {
    let odd = Url::parse("mailto:someone@example.org").unwrap();
    match timestamp_request(&odd, 1) {
        Err(Error::JoinUrl { path, url }) => {
            assert_eq!(path, "timestamp.json");
            assert_eq!(url, "mailto:someone@example.org");
        }
        other => panic!("unexpected result: {:?}", other),
    }
    match root_request(&odd, 5, 1) {
        Err(Error::JoinUrl { path, .. }) => assert_eq!(path, "5.root.json"),
        other => panic!("unexpected result: {:?}", other),
    }
}

struct Echo;

struct Once(Option<Vec<u8>>);

impl ByteStream for Once {
    fn read_chunk(&mut self, _limit: usize) -> Result<Vec<u8>, TransportError> {
        Ok(self.0.take().unwrap_or_default())
    }
}

/// Serves, under every URL but one, the URL itself.
impl Transport for Echo {
    type Stream = Once;

    fn fetch(&self, url: &Url) -> Result<Once, TransportError> {
        if url.as_str().ends_with("/missing") {
            Err(TransportError::new(
                TransportErrorKind::FileNotFound,
                url.as_str().to_string(),
            ))
        } else {
            Ok(Once(Some(url.as_str().as_bytes().to_vec())))
        }
    }
}

#[test]
fn open_puts_the_download_under_the_watch_of_the_request() {
    let url = || Url::parse("https://example.org/a").unwrap();
    let content = b"https://example.org/a";
    let digest = ring::digest::digest(&ring::digest::SHA256, content)
        .as_ref()
        .to_vec();
    let request = |max_size, sha256| FetchRequest {
        url: url(),
        max_size,
        specifier: "limit",
        sha256,
    };
    let read = |request: &FetchRequest| open(&Echo, request).ok().unwrap().read_all();
    assert_eq!(read(&request(21, None)).unwrap(), content);
    assert_eq!(
        read(&request(20, None)),
        Err(Error::MaxSizeExceeded {
            max_size: 20,
            specifier: "limit"
        })
    );
    assert_eq!(read(&request(21, Some(digest.clone()))).unwrap(), content);
    assert!(matches!(
        read(&request(21, Some(vec![0; 32]))),
        Err(Error::HashMismatch { .. })
    ));
    assert!(matches!(
        read(&request(20, Some(digest))),
        Err(Error::MaxSizeExceeded { .. })
    ));
    let missing = FetchRequest {
        url: Url::parse("https://example.org/missing").unwrap(),
        max_size: 100,
        specifier: "limit",
        sha256: None,
    };
    assert_eq!(
        open(&Echo, &missing).err().unwrap(),
        Error::Transport {
            kind: TransportErrorKind::FileNotFound,
            url: "https://example.org/missing".to_string()
        }
    );
}
