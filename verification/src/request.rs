//! What the client asks a repository for: which file, how many bytes of it
//! at most, and with which digest.

use crate::datastore::{SNAPSHOT_FILE, TARGETS_FILE, TIMESTAMP_FILE};
use crate::digest::MAX_DIGEST_INPUT;
use crate::error::{Error, ErrorView};
use crate::fetch::{fetch_max_size, fetch_sha256, BoundedReader};
use crate::location::{url_joined, Url};
use crate::names::{
    metadata_file_name, metadata_path, role_file_name, role_path, root_file_name, root_path,
    target_file_name, target_path,
};
use crate::schema::{SnapshotMeta, Target, TimestampMeta};
use crate::text::bytes_copy;
use crate::transport::Transport;
use vstd::prelude::*;
use vstd::string::*;

verus! {

/// A download that is to be made.
#[derive(Debug)]
pub struct FetchRequest {
    /// Where the file is.
    pub url: Url,
    /// The number of bytes that are read at most.
    pub max_size: u64,
    /// What set that limit: the words that an overrun is reported with.
    pub specifier: &'static str,
    /// The SHA-256 digest that the file must have, where one is known.
    pub sha256: Option<Vec<u8>>,
}

/// A download that is to be made, as a mathematical value.
pub struct FetchRequestView {
    pub url: Seq<char>,
    pub max_size: u64,
    pub specifier: Seq<char>,
    pub sha256: Option<Seq<u8>>,
}

impl View for FetchRequest {
    type V = FetchRequestView;

    open spec fn view(&self) -> FetchRequestView {
        FetchRequestView {
            url: self.url@,
            max_size: self.max_size,
            specifier: self.specifier@,
            sha256: match self.sha256 {
                Some(digest) => Some(digest@),
                None => None,
            },
        }
    }
}

/// The words that name the limit for a root file.
pub const MAX_ROOT_SIZE_SPECIFIER: &'static str = "max_root_size argument";

/// The words that name the limit for the timestamp file.
pub const MAX_TIMESTAMP_SIZE_SPECIFIER: &'static str = "max_timestamp_size argument";

/// The words that name the limit for a targets file whose length the
/// snapshot does not list.
pub const MAX_TARGETS_SIZE_SPECIFIER: &'static str = "max_targets_size parameter";

/// The request for the file `file` below `base`, or the failure to join
/// the two.
pub open spec fn request_for(
    base: Seq<char>,
    file: Seq<char>,
    max_size: u64,
    specifier: Seq<char>,
    sha256: Option<Seq<u8>>,
) -> Result<FetchRequestView, ErrorView> {
    match url_joined(base, file) {
        Some(url) => Ok(FetchRequestView { url, max_size, specifier, sha256 }),
        None => Err(ErrorView::JoinUrl { path: file, url: base }),
    }
}

/// A request as a mathematical value, or the failure to make one.
pub open spec fn requested(r: Result<FetchRequest, Error>) -> Result<FetchRequestView, ErrorView> {
    match r {
        Ok(request) => Ok(request@),
        Err(e) => Err(e@),
    }
}

fn request(
    base: &Url,
    file: &str,
    max_size: u64,
    specifier: &'static str,
    sha256: Option<Vec<u8>>,
) -> (r: Result<FetchRequest, Error>)
    ensures
        requested(r) == request_for(base@, file@, max_size, specifier@, match sha256 {
            Some(digest) => Some(digest@),
            None => None,
        }),
        r matches Ok(made) ==> made.url.wf(),
{
    match base.join(file) {
        Ok(url) => Ok(FetchRequest { url, max_size, specifier, sha256 }),
        Err(e) => Err(e),
    }
}

/// The request for the root metadata of a version: the file of that
/// version's name below the metadata base, cut off at `max_root_size`
/// bytes.
pub fn root_request(metadata_base_url: &Url, version: u128, max_root_size: u64) -> (r: Result<
    FetchRequest,
    Error,
>)
    ensures
        requested(r) == request_for(
            metadata_base_url@,
            root_file_name(version as nat),
            max_root_size,
            MAX_ROOT_SIZE_SPECIFIER@,
            None,
        ),
{
    let path = root_path(version);
    request(metadata_base_url, path.as_str(), max_root_size, MAX_ROOT_SIZE_SPECIFIER, None)
}

/// The request for the timestamp metadata: `timestamp.json` below the
/// metadata base, cut off at `max_timestamp_size` bytes.
pub fn timestamp_request(metadata_base_url: &Url, max_timestamp_size: u64) -> (r: Result<
    FetchRequest,
    Error,
>)
    ensures
        requested(r) == request_for(
            metadata_base_url@,
            TIMESTAMP_FILE@,
            max_timestamp_size,
            MAX_TIMESTAMP_SIZE_SPECIFIER@,
            None,
        ),
{
    request(
        metadata_base_url,
        TIMESTAMP_FILE,
        max_timestamp_size,
        MAX_TIMESTAMP_SIZE_SPECIFIER,
        None,
    )
}

/// The request for the snapshot metadata that the timestamp lists:
/// `snapshot.json` below the metadata base, with the listed version before
/// the name in a repository with consistent snapshots, cut off at the
/// listed length and with the listed digest.
pub fn snapshot_request(
    metadata_base_url: &Url,
    consistent_snapshot: bool,
    listed: &TimestampMeta,
) -> (r: Result<FetchRequest, Error>)
    ensures
        requested(r) == request_for(
            metadata_base_url@,
            metadata_file_name(consistent_snapshot, listed.version as nat, SNAPSHOT_FILE@),
            listed.length,
            TIMESTAMP_FILE@,
            Some(listed.sha256@),
        ),
{
    let path = metadata_path(consistent_snapshot, listed.version, SNAPSHOT_FILE);
    request(
        metadata_base_url,
        path.as_str(),
        listed.length,
        TIMESTAMP_FILE,
        Some(bytes_copy(listed.sha256.as_slice())),
    )
}

/// The most bytes of top-level targets metadata that are fetched, and the
/// words that name this limit: the length that the snapshot lists, or else
/// the configured limit.
pub fn targets_size_limit(listed: &SnapshotMeta, max_targets_size: u64) -> (r: (
    u64,
    &'static str,
))
    ensures
        r == match listed.length {
            Some(length) => (length, SNAPSHOT_FILE),
            None => (max_targets_size, MAX_TARGETS_SIZE_SPECIFIER),
        },
{
    match listed.length {
        Some(length) => (length, SNAPSHOT_FILE),
        None => (max_targets_size, MAX_TARGETS_SIZE_SPECIFIER),
    }
}

/// The request for the top-level targets metadata that the snapshot lists:
/// `targets.json` below the metadata base, with the listed version before
/// the name in a repository with consistent snapshots. It is cut off at
/// the listed length, or at `max_targets_size` bytes where none is listed,
/// and has the listed digest where one is listed.
pub fn targets_request(
    metadata_base_url: &Url,
    consistent_snapshot: bool,
    listed: &SnapshotMeta,
    max_targets_size: u64,
) -> (r: Result<FetchRequest, Error>)
    ensures
        requested(r) == request_for(
            metadata_base_url@,
            metadata_file_name(consistent_snapshot, listed.version as nat, TARGETS_FILE@),
            match listed.length {
                Some(length) => length,
                None => max_targets_size,
            },
            match listed.length {
                Some(length) => SNAPSHOT_FILE@,
                None => MAX_TARGETS_SIZE_SPECIFIER@,
            },
            match listed.sha256 {
                Some(digest) => Some(digest@),
                None => None,
            },
        ),
{
    let path = metadata_path(consistent_snapshot, listed.version, TARGETS_FILE);
    let (max_size, specifier) = targets_size_limit(listed, max_targets_size);
    let sha256 = match &listed.sha256 {
        Some(digest) => Some(bytes_copy(digest.as_slice())),
        None => None,
    };
    request(metadata_base_url, path.as_str(), max_size, specifier, sha256)
}

/// The request for the targets metadata of the delegated role `name` that
/// the snapshot lists: the role's name with `.json` below the metadata
/// base, with the listed version before the name in a repository with
/// consistent snapshots, cut off at `max_targets_size` bytes.
pub fn delegated_role_request(
    metadata_base_url: &Url,
    consistent_snapshot: bool,
    listed: &SnapshotMeta,
    name: &str,
    max_targets_size: u64,
) -> (r: Result<FetchRequest, Error>)
    ensures
        requested(r) == request_for(
            metadata_base_url@,
            metadata_file_name(consistent_snapshot, listed.version as nat, role_file_name(name@)),
            max_targets_size,
            MAX_TARGETS_SIZE_SPECIFIER@,
            None,
        ),
{
    let file = role_path(name);
    let path = metadata_path(consistent_snapshot, listed.version, file.as_str());
    request(metadata_base_url, path.as_str(), max_targets_size, MAX_TARGETS_SIZE_SPECIFIER, None)
}

/// The request for a target: the target's name below the targets base,
/// with the target's digest before the name in a repository with
/// consistent snapshots, cut off at the target's length and with the
/// target's digest.
pub fn target_request(
    targets_base_url: &Url,
    consistent_snapshot: bool,
    target: &Target,
    name: &str,
) -> (r: Result<FetchRequest, Error>)
    ensures
        requested(r) == request_for(
            targets_base_url@,
            target_file_name(consistent_snapshot, target.sha256@, name@),
            target.length,
            TARGETS_FILE@,
            Some(target.sha256@),
        ),
{
    let path = target_path(consistent_snapshot, target.sha256.as_slice(), name);
    request(
        targets_base_url,
        path.as_str(),
        target.length,
        TARGETS_FILE,
        Some(bytes_copy(target.sha256.as_slice())),
    )
}

/// Opens the file of a request for a download under the watch that the
/// request asks for. No download is longer than what can be digested.
pub fn open<T: Transport>(transport: &T, request: &FetchRequest) -> (r: Result<
    BoundedReader<T::Stream>,
    Error,
>)
    ensures
        match r {
            Ok(reader) => {
                &&& reader.wf()
                &&& reader.delivered() == Seq::<u8>::empty()
                &&& !reader.finished()
                &&& reader.specifier()@ == request@.specifier
                &&& reader.expected() == request@.sha256
                &&& reader.limit() == if request.sha256 is Some && request.max_size
                    > MAX_DIGEST_INPUT {
                    MAX_DIGEST_INPUT
                } else {
                    request.max_size
                }
            },
            Err(e) => e is Transport,
        },
{
    match &request.sha256 {
        Some(digest) => fetch_sha256(
            transport,
            &request.url,
            request.max_size,
            request.specifier,
            digest.as_slice(),
        ),
        None => fetch_max_size(transport, &request.url, request.max_size, request.specifier),
    }
}

} // verus!
