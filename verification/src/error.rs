//! The ways in which loading a repository or reading a target can fail.

use crate::schema::RoleType;
use crate::time::UtcTime;
use crate::transport::TransportErrorKind;
use vstd::prelude::*;

verus! {

/// Why the client gave up. Every failure of a check ends the load in
/// progress: nothing is retried and no earlier state is restored.
#[derive(Debug, Clone, PartialEq, Eq)]
#[allow(inconsistent_fields)]
pub enum Error {
    /// A target that is to be copied is not listed by the repository.
    CacheTargetMissing { target_name: String },
    /// A datastore file could not be written because its content has no
    /// serialized form.
    DatastoreSerialize { file: &'static str },
    /// A delegated role was fetched and checked, but had left the set of
    /// fetched roles when it was to be attached to its parent.
    DelegatedRolesNotConsistent { name: String },
    /// The metadata of `role` expired before the clock was read.
    ExpiredMetadata { role: RoleType },
    /// The bytes that were read do not have the SHA-256 digest that the
    /// signed metadata lists. `context` names what was read.
    HashMismatch { context: String, calculated: String, expected: String },
    /// The path patterns of a delegation are not well-formed.
    InvalidPath,
    /// A file name could not be joined to a base URL.
    JoinUrl { path: String, url: String },
    /// Delegations are nested deeper than the client follows them.
    MaxDelegationDepthExceeded { max_depth: u64 },
    /// More bytes arrived than `specifier` allows.
    MaxSizeExceeded { max_size: u64, specifier: &'static str },
    /// The trusted root is as many versions past the root that the load
    /// began with as one load may follow.
    MaxUpdatesExceeded { max_root_updates: u64 },
    /// The metadata of `role` does not describe `file`.
    MetaMissing { file: String, role: RoleType },
    /// The metadata that was fetched is older than what the client trusted
    /// before.
    OlderMetadata { role: RoleType, current_version: u64, new_version: u64 },
    /// The bytes that were fetched are not metadata of `role`.
    ParseMetadata { role: RoleType },
    /// The root that the caller supplied is not root metadata.
    ParseTrustedMetadata,
    /// A base URL with a slash added is not a URL.
    ParseUrl { url: String },
    /// The snapshot does not list a delegated role.
    RoleNotInMeta { name: String },
    /// The clock reads earlier than the time the datastore recorded.
    SystemTimeSteppedBackward { sys_time: UtcTime, latest_known_time: UtcTime },
    /// The transport could not open or read a file.
    Transport { kind: TransportErrorKind, url: String },
    /// The signatures on metadata of `role` do not meet the threshold of
    /// the keys that are trusted for it.
    VerifyMetadata { role: RoleType },
    /// The root that the caller supplied is not signed by a threshold of its
    /// own root keys.
    VerifyTrustedMetadata,
    /// The version inside a metadata file is not the version that the
    /// metadata above it lists.
    VersionMismatch { role: RoleType, fetched: u64, expected: u64 },
}

/// A failure as a mathematical value: texts in place of strings.
#[allow(inconsistent_fields)]
pub enum ErrorView {
    CacheTargetMissing { target_name: Seq<char> },
    DatastoreSerialize { file: Seq<char> },
    DelegatedRolesNotConsistent { name: Seq<char> },
    ExpiredMetadata { role: RoleType },
    HashMismatch { context: Seq<char>, calculated: Seq<char>, expected: Seq<char> },
    InvalidPath,
    JoinUrl { path: Seq<char>, url: Seq<char> },
    MaxDelegationDepthExceeded { max_depth: u64 },
    MaxSizeExceeded { max_size: u64, specifier: Seq<char> },
    MaxUpdatesExceeded { max_root_updates: u64 },
    MetaMissing { file: Seq<char>, role: RoleType },
    OlderMetadata { role: RoleType, current_version: u64, new_version: u64 },
    ParseMetadata { role: RoleType },
    ParseTrustedMetadata,
    ParseUrl { url: Seq<char> },
    RoleNotInMeta { name: Seq<char> },
    SystemTimeSteppedBackward { sys_time: UtcTime, latest_known_time: UtcTime },
    Transport { kind: TransportErrorKind, url: Seq<char> },
    VerifyMetadata { role: RoleType },
    VerifyTrustedMetadata,
    VersionMismatch { role: RoleType, fetched: u64, expected: u64 },
}

impl View for Error {
    type V = ErrorView;

    open spec fn view(&self) -> ErrorView {
        match *self {
            Error::CacheTargetMissing { target_name } => ErrorView::CacheTargetMissing {
                target_name: target_name@,
            },
            Error::DatastoreSerialize { file } => ErrorView::DatastoreSerialize { file: file@ },
            Error::DelegatedRolesNotConsistent { name } => ErrorView::DelegatedRolesNotConsistent {
                name: name@,
            },
            Error::ExpiredMetadata { role } => ErrorView::ExpiredMetadata { role },
            Error::HashMismatch { context, calculated, expected } => ErrorView::HashMismatch {
                context: context@,
                calculated: calculated@,
                expected: expected@,
            },
            Error::InvalidPath => ErrorView::InvalidPath,
            Error::JoinUrl { path, url } => ErrorView::JoinUrl { path: path@, url: url@ },
            Error::MaxDelegationDepthExceeded { max_depth } => {
                ErrorView::MaxDelegationDepthExceeded { max_depth }
            },
            Error::MaxSizeExceeded { max_size, specifier } => ErrorView::MaxSizeExceeded {
                max_size,
                specifier: specifier@,
            },
            Error::MaxUpdatesExceeded { max_root_updates } => ErrorView::MaxUpdatesExceeded {
                max_root_updates,
            },
            Error::MetaMissing { file, role } => ErrorView::MetaMissing { file: file@, role },
            Error::OlderMetadata { role, current_version, new_version } => {
                ErrorView::OlderMetadata { role, current_version, new_version }
            },
            Error::ParseMetadata { role } => ErrorView::ParseMetadata { role },
            Error::ParseTrustedMetadata => ErrorView::ParseTrustedMetadata,
            Error::ParseUrl { url } => ErrorView::ParseUrl { url: url@ },
            Error::RoleNotInMeta { name } => ErrorView::RoleNotInMeta { name: name@ },
            Error::SystemTimeSteppedBackward { sys_time, latest_known_time } => {
                ErrorView::SystemTimeSteppedBackward { sys_time, latest_known_time }
            },
            Error::Transport { kind, url } => ErrorView::Transport { kind, url: url@ },
            Error::VerifyMetadata { role } => ErrorView::VerifyMetadata { role },
            Error::VerifyTrustedMetadata => ErrorView::VerifyTrustedMetadata,
            Error::VersionMismatch { role, fetched, expected } => ErrorView::VersionMismatch {
                role,
                fetched,
                expected,
            },
        }
    }
}

/// A result with its failure as a mathematical value.
pub open spec fn outcome<T>(r: Result<T, Error>) -> Result<T, ErrorView> {
    match r {
        Ok(value) => Ok(value),
        Err(e) => Err(e@),
    }
}

} // verus!
