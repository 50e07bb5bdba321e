//! The update workflow: root, timestamp, snapshot, targets and delegated
//! targets, each fetched and checked against what was trusted before.

use crate::cache::{
    lemma_role_files_hold, lemma_versioned_role_files_stand_apart, role_files_in,
    role_files_in_roles,
};
use crate::checks::{
    check_delegated_role, check_keys_changed, check_next_root, check_root_updates,
    check_snapshot, check_targets, check_timestamp, keys_changed, may_update_root, self_signed,
    signed_by, snapshot_verdict, targets_verdict, timestamp_verdict,
};
use crate::clock::{check_expired, fresh, recorded_in_time, recorded_too_late, time_recorded};
use crate::datastore::{
    lemma_file_names_differ, Datastore, LATEST_KNOWN_TIME_FILE, SNAPSHOT_FILE, TARGETS_FILE,
    TIMESTAMP_FILE,
};
use crate::digest::{sha256, MAX_DIGEST_INPUT};
use crate::enforcement::ExpirationEnforcement;
use crate::error::{outcome, Error, ErrorView};
use crate::location::{url_joined, Url};
use crate::names::{
    metadata_file_name, metadata_path, role_file_name, role_path, root_file_name,
};
use crate::request::{
    delegated_role_request, open, request_for, root_request, snapshot_request, targets_request,
    timestamp_request, FetchRequestView, MAX_ROOT_SIZE_SPECIFIER, MAX_TARGETS_SIZE_SPECIFIER,
    MAX_TIMESTAMP_SIZE_SPECIFIER,
};
use crate::schema::{
    delegations_verified, find_named, first_named, lemma_role_index_by_names, roles_verified,
    DelegatedRole, Delegations, RoleType, Root, Schema, Signed, Snapshot, SnapshotMeta, Targets,
    Timestamp, TimestampMeta,
};
use crate::time::{encoded_time, UtcTime};
use crate::fetch::BoundedReader;
use crate::transport::{ByteStream, Transport};
use vstd::prelude::*;
use vstd::string::*;

verus! {

/// Whether a failure comes from the clock or from an expiration.
pub open spec fn clock_failure(e: Error) -> bool {
    e is ExpiredMetadata || e is SystemTimeSteppedBackward || e is DatastoreSerialize
}

/// Whether `e` is a failure of the check that metadata of the role `role`
/// which expires at `expires` has not expired, between the stores `before`
/// and `after`: the clock was read past `expires` and the reading put on
/// record, or the reading was refused and the store left as it was.
pub open spec fn expiry_failure(
    e: Error,
    role: RoleType,
    expires: UtcTime,
    before: Map<Seq<char>, Seq<u8>>,
    after: Map<Seq<char>, Seq<u8>>,
) -> bool {
    match e {
        Error::ExpiredMetadata { role: named } => named == role && recorded_too_late(
            before,
            after,
            expires,
        ),
        Error::SystemTimeSteppedBackward { .. } => after == before,
        Error::DatastoreSerialize { .. } => after == before,
        _ => false,
    }
}

/// Whether `e` is a failure that a download can end in once its address
/// was made: the transport's own, an overrun of `limit` that names
/// `specifier`, or, where a digest was asked for, a digest that differs.
pub open spec fn download_failure(
    e: ErrorView,
    limit: u64,
    specifier: Seq<char>,
    digest: bool,
) -> bool {
    match e {
        ErrorView::Transport { .. } => true,
        ErrorView::MaxSizeExceeded { max_size, specifier: named } => max_size == limit && named
            == specifier,
        ErrorView::HashMismatch { .. } => digest,
        _ => false,
    }
}

/// The longest download that is let through where a digest is asked for.
pub open spec fn digest_limit(max_size: u64) -> u64 {
    if max_size > MAX_DIGEST_INPUT {
        MAX_DIGEST_INPUT
    } else {
        max_size
    }
}

/// Whether `checked` is what becomes of the store `before` when metadata
/// that expires at `expires` passes the check of its expiration. Where
/// expirations are enforced, a clock reading at which `expires` had not
/// passed was put on record. Where they are not, the store stays as it
/// is.
pub open spec fn clock_passed(
    before: Map<Seq<char>, Seq<u8>>,
    checked: Map<Seq<char>, Seq<u8>>,
    expires: UtcTime,
    enforcement: ExpirationEnforcement,
) -> bool {
    if enforcement.enforced() {
        recorded_in_time(before, checked, expires)
    } else {
        checked == before
    }
}

/// What becomes of metadata that was fetched, given the verdict on it.
/// Metadata that the verdict refuses fails with the verdict's failure, and
/// the store stays as it is. Metadata that it accepts must pass the check
/// of its expiration, which fails with an expiration of the role `role`
/// or with a failure of the clock; then `bytes` is written as `file`.
pub open spec fn accepted(
    verdict: Result<(), ErrorView>,
    role: RoleType,
    expires: UtcTime,
    file: Seq<char>,
    bytes: Seq<u8>,
    before: Map<Seq<char>, Seq<u8>>,
    after: Map<Seq<char>, Seq<u8>>,
    enforcement: ExpirationEnforcement,
    r: Result<(), Error>,
) -> bool {
    match verdict {
        Err(failure) => r matches Err(e) && e@ == failure && after == before,
        Ok(()) => match r {
            Ok(()) => exists|checked: Map<Seq<char>, Seq<u8>>| #[trigger]
                clock_passed(before, checked, expires, enforcement) && after == checked.insert(
                    file,
                    bytes,
                ),
            Err(e) => enforcement.enforced() && expiry_failure(e, role, expires, before, after),
        },
    }
}

/// A failure of the check of an expiration changes no file but the clock
/// record.
pub proof fn lemma_expiry_failure_keeps_files(
    e: Error,
    role: RoleType,
    expires: UtcTime,
    before: Map<Seq<char>, Seq<u8>>,
    after: Map<Seq<char>, Seq<u8>>,
    enforcement: ExpirationEnforcement,
)
    requires
        enforcement.enforced(),
        expiry_failure(e, role, expires, before, after),
    ensures
        only_clock_touched(before, after, enforcement),
        keeps_files(before, after),
{
    if e is ExpiredMetadata {
        let now = choose|now: UtcTime| #[trigger]
            time_recorded(before, after, now) && !now.spec_at_or_before(expires);
        assert(after.remove(LATEST_KNOWN_TIME_FILE@) =~= before.remove(LATEST_KNOWN_TIME_FILE@));
    }
}

/// Metadata that was accepted is in the store under its name, no other
/// file but the clock record has changed, and the clock record is of a
/// reading at which the metadata had not expired.
pub proof fn lemma_accepted_is_stored(
    role: RoleType,
    expires: UtcTime,
    file: Seq<char>,
    bytes: Seq<u8>,
    before: Map<Seq<char>, Seq<u8>>,
    after: Map<Seq<char>, Seq<u8>>,
    enforcement: ExpirationEnforcement,
)
    requires
        accepted(
            Ok(()),
            role,
            expires,
            file,
            bytes,
            before,
            after,
            enforcement,
            Ok(()),
        ),
        file != LATEST_KNOWN_TIME_FILE@,
    ensures
        after.contains_key(file),
        after[file] == bytes,
        keeps_files(before, after),
        only_wrote(before, after, file, enforcement),
        enforcement.enforced() ==> fresh(after, expires),
{
    let clock = LATEST_KNOWN_TIME_FILE@;
    let checked = choose|checked: Map<Seq<char>, Seq<u8>>| #[trigger]
        clock_passed(before, checked, expires, enforcement) && after == checked.insert(
            file,
            bytes,
        );
    if enforcement.enforced() {
        let now = choose|now: UtcTime| #[trigger]
            time_recorded(before, checked, now) && now.spec_at_or_before(expires);
        assert(encoded_time(now.secs, now.nanos) == Some(after[clock]));
        assert(after.remove(file).remove(clock) =~= before.remove(file).remove(clock));
    } else {
        assert(after.remove(file) =~= before.remove(file));
    }
}

/// Whether two stores differ at most in the clock record, and not even
/// there where expirations are not enforced.
pub open spec fn only_clock_touched(
    before: Map<Seq<char>, Seq<u8>>,
    after: Map<Seq<char>, Seq<u8>>,
    enforcement: ExpirationEnforcement,
) -> bool {
    if enforcement.enforced() {
        after.remove(LATEST_KNOWN_TIME_FILE@) == before.remove(LATEST_KNOWN_TIME_FILE@)
    } else {
        after == before
    }
}

/// Whether two stores differ at most in the file `file` and in the clock
/// record, and not in the clock record where expirations are not enforced.
pub open spec fn only_wrote(
    before: Map<Seq<char>, Seq<u8>>,
    after: Map<Seq<char>, Seq<u8>>,
    file: Seq<char>,
    enforcement: ExpirationEnforcement,
) -> bool {
    only_clock_touched(before.remove(file), after.remove(file), enforcement)
}

/// Reads the clock and makes sure that metadata has not expired, where
/// expirations are enforced.
fn check_expired_if_enforced<T: crate::schema::Role>(
    datastore: &mut Datastore,
    role: &T,
    enforcement: ExpirationEnforcement,
) -> (r: Result<(), Error>)
    ensures
        only_clock_touched(old(datastore)@, final(datastore)@, enforcement),
        keeps_files(old(datastore)@, final(datastore)@),
        match r {
            Ok(()) => {
                &&& clock_passed(
                    old(datastore)@,
                    final(datastore)@,
                    role.expires_spec(),
                    enforcement,
                )
                &&& enforcement.enforced() ==> fresh(final(datastore)@, role.expires_spec())
            },
            Err(e) => enforcement.enforced() && expiry_failure(
                e,
                T::role_type_spec(),
                role.expires_spec(),
                old(datastore)@,
                final(datastore)@,
            ),
        },
{
    if enforcement == ExpirationEnforcement::Safe {
        let ghost before = datastore@;
        match check_expired(datastore, role) {
            Ok(()) => {
                proof {
                    let now = choose|now: UtcTime| #[trigger]
                        time_recorded(before, datastore@, now) && now.spec_at_or_before(
                            role.expires_spec(),
                        );
                    assert(datastore@.remove(LATEST_KNOWN_TIME_FILE@) =~= before.remove(
                        LATEST_KNOWN_TIME_FILE@,
                    ));
                }
                Ok(())
            },
            Err(e) => {
                proof {
                    if e is ExpiredMetadata {
                        let now = choose|now: UtcTime| #[trigger]
                            time_recorded(before, datastore@, now) && !now.spec_at_or_before(
                                role.expires_spec(),
                            );
                        assert(datastore@.remove(LATEST_KNOWN_TIME_FILE@) =~= before.remove(
                            LATEST_KNOWN_TIME_FILE@,
                        ));
                    }
                }
                Err(e)
            },
        }
    } else {
        Ok(())
    }
}

/// Carries out the verdict on metadata that was fetched: refuses what the
/// verdict refuses, checks the expiration of what it accepts, and writes
/// `bytes` to the datastore as `file`.
fn accept<T: crate::schema::Role>(
    verdict: Result<(), Error>,
    fetched: &T,
    file: &str,
    bytes: Vec<u8>,
    datastore: &mut Datastore,
    enforcement: ExpirationEnforcement,
) -> (r: Result<(), Error>)
    ensures
        accepted(
            outcome(verdict),
            T::role_type_spec(),
            fetched.expires_spec(),
            file@,
            bytes@,
            old(datastore)@,
            final(datastore)@,
            enforcement,
            r,
        ),
{
    match verdict {
        Ok(()) => {},
        Err(e) => {
            return Err(e);
        },
    }
    match check_expired_if_enforced(datastore, fetched, enforcement) {
        Ok(()) => {},
        Err(e) => {
            return Err(e);
        },
    }
    let ghost checked = datastore@;
    datastore.create(file, bytes);
    assert(clock_passed(old(datastore)@, checked, fetched.expires_spec(), enforcement));
    Ok(())
}

/// Decides on a timestamp that was fetched as `bytes` and read as
/// `fetched`, given the timestamp `stored` that the datastore holds. It
/// must be signed as the root asks and not be older than `stored`, where
/// that is signed as the root asks. Where expirations are enforced, it
/// must not have expired. Then `bytes` is written as `timestamp.json`.
pub fn accept_timestamp(
    root: &Signed<Root>,
    fetched: &Signed<Timestamp>,
    stored: &Option<Signed<Timestamp>>,
    bytes: Vec<u8>,
    datastore: &mut Datastore,
    enforcement: ExpirationEnforcement,
) -> (r: Result<(), Error>)
    ensures
        accepted(
            timestamp_verdict(*root, *fetched, *stored),
            RoleType::Timestamp,
            fetched.signed.expires,
            TIMESTAMP_FILE@,
            bytes@,
            old(datastore)@,
            final(datastore)@,
            enforcement,
            r,
        ),
{
    accept(
        check_timestamp(root, fetched, stored),
        &fetched.signed,
        TIMESTAMP_FILE,
        bytes,
        datastore,
        enforcement,
    )
}

/// Decides on a snapshot that was fetched as `bytes` and read as
/// `fetched`, given what the timestamp lists of it and the snapshot
/// `stored` that the datastore holds. It must have the listed version, be
/// signed as the root asks and be fit to follow `stored`, where that is
/// signed as the root asks. Where expirations are enforced, it must not
/// have expired. Then `bytes` is written as `snapshot.json`.
pub fn accept_snapshot(
    root: &Signed<Root>,
    listed: &TimestampMeta,
    fetched: &Signed<Snapshot>,
    stored: &Option<Signed<Snapshot>>,
    bytes: Vec<u8>,
    datastore: &mut Datastore,
    enforcement: ExpirationEnforcement,
) -> (r: Result<(), Error>)
    ensures
        accepted(
            snapshot_verdict(*root, *listed, *fetched, *stored),
            RoleType::Snapshot,
            fetched.signed.expires,
            SNAPSHOT_FILE@,
            bytes@,
            old(datastore)@,
            final(datastore)@,
            enforcement,
            r,
        ),
{
    accept(
        check_snapshot(root, listed, fetched, stored),
        &fetched.signed,
        SNAPSHOT_FILE,
        bytes,
        datastore,
        enforcement,
    )
}

/// Decides on top-level targets metadata that was fetched as `bytes` and
/// read as `fetched`, given what the snapshot lists of it and the targets
/// metadata `stored` that the datastore holds. It must have the listed
/// version, be signed as the root asks and not be older than `stored`,
/// where that is signed as the root asks. Where expirations are enforced,
/// it must not have expired. Then `bytes` is written as `targets.json`.
pub fn accept_targets(
    root: &Signed<Root>,
    listed: &SnapshotMeta,
    fetched: &Signed<Targets>,
    stored: &Option<Signed<Targets>>,
    bytes: Vec<u8>,
    datastore: &mut Datastore,
    enforcement: ExpirationEnforcement,
) -> (r: Result<(), Error>)
    ensures
        accepted(
            targets_verdict(*root, *listed, *fetched, *stored),
            RoleType::Targets,
            fetched.signed.expires,
            TARGETS_FILE@,
            bytes@,
            old(datastore)@,
            final(datastore)@,
            enforcement,
            r,
        ),
{
    accept(
        check_targets(root, listed, fetched, stored),
        &fetched.signed,
        TARGETS_FILE,
        bytes,
        datastore,
        enforcement,
    )
}

/// Whether `e` is a failure that loading the timestamp can end in, each
/// with what brings it: an address that cannot be made, a download that
/// fails or overruns `max_timestamp_size`, a file that cannot be read as a
/// timestamp, is not signed as the root asks, is older than the one in
/// store or has expired, or a clock that cannot be put on record.
pub open spec fn timestamp_failure(e: ErrorView, base: Seq<char>, max_timestamp_size: u64) -> bool {
    match e {
        ErrorView::JoinUrl { path, url } => url_joined(base, TIMESTAMP_FILE@) is None && path
            == TIMESTAMP_FILE@ && url == base,
        ErrorView::Transport { .. } => url_joined(base, TIMESTAMP_FILE@) is Some,
        ErrorView::MaxSizeExceeded { max_size, specifier } => url_joined(
            base,
            TIMESTAMP_FILE@,
        ) is Some && max_size == max_timestamp_size && specifier
            == MAX_TIMESTAMP_SIZE_SPECIFIER@,
        ErrorView::ParseMetadata { role } => role == RoleType::Timestamp,
        ErrorView::VerifyMetadata { role } => role == RoleType::Timestamp,
        ErrorView::OlderMetadata { role, current_version, new_version } => role
            == RoleType::Timestamp && new_version < current_version,
        ErrorView::ExpiredMetadata { role } => role == RoleType::Timestamp,
        ErrorView::SystemTimeSteppedBackward { .. } => true,
        ErrorView::DatastoreSerialize { .. } => true,
        _ => false,
    }
}

/// Loads the timestamp metadata: the second step of an update.
///
/// The file `timestamp.json` is fetched from the metadata base, cut off at
/// `max_timestamp_size` bytes. It must be signed as the root asks and must
/// not be older than a timestamp in the datastore that is signed as the
/// root asks. Where expirations are enforced, it must not have expired.
/// Then it is written to the datastore.
pub fn load_timestamp<T: Transport, S: Schema>(
    transport: &T,
    schema: &S,
    root: &Signed<Root>,
    datastore: &mut Datastore,
    max_timestamp_size: u64,
    metadata_base_url: &Url,
    expiration_enforcement: ExpirationEnforcement,
) -> (r: Result<Signed<Timestamp>, Error>)
    ensures
        match r {
            Ok(timestamp) => {
                &&& signed_by(*root, RoleType::Timestamp, timestamp)
                &&& only_wrote(
                    old(datastore)@,
                    final(datastore)@,
                    TIMESTAMP_FILE@,
                    expiration_enforcement,
                )
                &&& keeps_files(old(datastore)@, final(datastore)@)
                &&& final(datastore)@.contains_key(TIMESTAMP_FILE@)
                &&& final(datastore)@[TIMESTAMP_FILE@].len() <= max_timestamp_size
                &&& expiration_enforcement.enforced() ==> fresh(
                    final(datastore)@,
                    timestamp.signed.expires,
                )
            },
            Err(e) => {
                &&& timestamp_failure(e@, metadata_base_url@, max_timestamp_size)
                &&& e is OlderMetadata ==> old(datastore)@.contains_key(TIMESTAMP_FILE@)
                &&& only_clock_touched(old(datastore)@, final(datastore)@, expiration_enforcement)
                &&& clock_failure(e) ==> expiration_enforcement.enforced()
                &&& !(e is ExpiredMetadata) ==> final(datastore)@ == old(datastore)@
            },
        },
        url_joined(metadata_base_url@, TIMESTAMP_FILE@) is None ==> outcome(r) == Err::<
            Signed<Timestamp>,
            ErrorView,
        >(ErrorView::JoinUrl { path: TIMESTAMP_FILE@, url: metadata_base_url@ }),
{
    let ghost before = datastore@;
    let request = match timestamp_request(metadata_base_url, max_timestamp_size) {
        Ok(request) => request,
        Err(e) => {
            return Err(e);
        },
    };
    let reader = match open(transport, &request) {
        Ok(reader) => reader,
        Err(e) => {
            return Err(e);
        },
    };
    let bytes = match reader.read_all() {
        Ok(bytes) => bytes,
        Err(e) => {
            return Err(e);
        },
    };
    let timestamp = match schema.parse_timestamp(bytes.as_slice()) {
        Some(timestamp) => timestamp,
        None => {
            return Err(Error::ParseMetadata { role: RoleType::Timestamp });
        },
    };
    let stored = match datastore.get(TIMESTAMP_FILE) {
        Some(old_bytes) => schema.parse_timestamp(old_bytes.as_slice()),
        None => None,
    };
    let ghost content = bytes@;
    match accept_timestamp(root, &timestamp, &stored, bytes, datastore, expiration_enforcement) {
        Ok(()) => {},
        Err(e) => {
            proof {
                if timestamp_verdict(*root, timestamp, stored) is Ok {
                    lemma_expiry_failure_keeps_files(
                        e,
                        RoleType::Timestamp,
                        timestamp.signed.expires,
                        before,
                        datastore@,
                        expiration_enforcement,
                    );
                }
            }
            return Err(e);
        },
    }
    proof {
        lemma_file_names_differ();
        lemma_accepted_is_stored(
            RoleType::Timestamp,
            timestamp.signed.expires,
            TIMESTAMP_FILE@,
            content,
            before,
            datastore@,
            expiration_enforcement,
        );
    }
    Ok(timestamp)
}

/// The request for the snapshot that a timestamp lists, in a repository
/// with the given root.
pub open spec fn snapshot_request_spec(
    root: Signed<Root>,
    listed: TimestampMeta,
    metadata_base_url: Seq<char>,
) -> Result<FetchRequestView, ErrorView> {
    request_for(
        metadata_base_url,
        metadata_file_name(root.signed.consistent_snapshot, listed.version as nat, SNAPSHOT_FILE@),
        listed.length,
        TIMESTAMP_FILE@,
        Some(listed.sha256@),
    )
}

/// The request for the top-level targets metadata that a snapshot lists,
/// in a repository with the given root.
pub open spec fn targets_request_spec(
    root: Signed<Root>,
    listed: SnapshotMeta,
    metadata_base_url: Seq<char>,
    max_targets_size: u64,
) -> Result<FetchRequestView, ErrorView> {
    request_for(
        metadata_base_url,
        metadata_file_name(root.signed.consistent_snapshot, listed.version as nat, TARGETS_FILE@),
        match listed.length {
            Some(length) => length,
            None => max_targets_size,
        },
        match listed.length {
            Some(length) => SNAPSHOT_FILE@,
            None => MAX_TARGETS_SIZE_SPECIFIER@,
        },
        match listed.sha256 {
            Some(digest) => Some(digest@),
            None => None,
        },
    )
}

/// Whether `e` is a failure that loading the snapshot can end in, each
/// with what brings it. Where the timestamp does not list the snapshot, or
/// the address cannot be made, that is the failure. Else it is one of the
/// download, cut off at the listed length and held against the listed
/// digest, one of a file that cannot be read as a snapshot, has another
/// version than the listed one, is not signed as the root asks, is not fit
/// to follow the one in store or has expired, or one of the clock.
pub open spec fn snapshot_failure(
    e: ErrorView,
    root: Signed<Root>,
    timestamp: Timestamp,
    base: Seq<char>,
) -> bool {
    match first_named(timestamp.meta@, SNAPSHOT_FILE@) {
        None => e == (ErrorView::MetaMissing { file: SNAPSHOT_FILE@, role: RoleType::Timestamp }),
        Some(listed) => match snapshot_request_spec(root, listed, base) {
            Err(failure) => e == failure,
            Ok(request) => match e {
                ErrorView::Transport { .. } => true,
                ErrorView::MaxSizeExceeded { max_size, specifier } => max_size == digest_limit(
                    listed.length,
                ) && specifier == TIMESTAMP_FILE@,
                ErrorView::HashMismatch { .. } => true,
                ErrorView::ParseMetadata { role } => role == RoleType::Snapshot,
                ErrorView::VersionMismatch { role, fetched, expected } => role
                    == RoleType::Snapshot && expected == listed.version && fetched != expected,
                ErrorView::VerifyMetadata { role } => role == RoleType::Snapshot,
                ErrorView::OlderMetadata { role, current_version, new_version } => (role
                    == RoleType::Snapshot || role == RoleType::Targets) && new_version
                    < current_version,
                ErrorView::MetaMissing { file, role } => role == RoleType::Snapshot,
                ErrorView::ExpiredMetadata { role } => role == RoleType::Snapshot,
                ErrorView::SystemTimeSteppedBackward { .. } => true,
                ErrorView::DatastoreSerialize { .. } => true,
                _ => false,
            },
        },
    }
}

/// Loads the snapshot metadata: the third step of an update.
///
/// The timestamp names the snapshot's version, length and digest. The file
/// is fetched from the metadata base under `snapshot.json`, or, in a
/// repository with consistent snapshots, under that name with the version
/// before it; it is cut off at the length and must have the digest. It
/// must have the version that the timestamp lists, be signed as the root
/// asks, and be fit to follow a snapshot in the datastore that is signed
/// as the root asks. Where expirations are enforced, it must not have
/// expired. Then it is written to the datastore as `snapshot.json`.
pub fn load_snapshot<T: Transport, S: Schema>(
    transport: &T,
    schema: &S,
    root: &Signed<Root>,
    timestamp: &Signed<Timestamp>,
    datastore: &mut Datastore,
    metadata_base_url: &Url,
    expiration_enforcement: ExpirationEnforcement,
) -> (r: Result<Signed<Snapshot>, Error>)
    ensures
        match r {
            Ok(snapshot) => {
                &&& signed_by(*root, RoleType::Snapshot, snapshot)
                &&& first_named(timestamp.signed.meta@, SNAPSHOT_FILE@) matches Some(listed)
                &&& snapshot.signed.version == listed.version
                &&& keeps_files(old(datastore)@, final(datastore)@)
                &&& final(datastore)@.contains_key(SNAPSHOT_FILE@)
                &&& final(datastore)@[SNAPSHOT_FILE@].len() <= listed.length
                &&& sha256(final(datastore)@[SNAPSHOT_FILE@]) == listed.sha256@
                &&& only_wrote(
                    old(datastore)@,
                    final(datastore)@,
                    SNAPSHOT_FILE@,
                    expiration_enforcement,
                )
                &&& expiration_enforcement.enforced() ==> fresh(
                    final(datastore)@,
                    snapshot.signed.expires,
                )
            },
            Err(e) => {
                &&& snapshot_failure(e@, *root, timestamp.signed, metadata_base_url@)
                &&& e is OlderMetadata || (e matches Error::MetaMissing { role, .. } && role
                    == RoleType::Snapshot) ==> old(datastore)@.contains_key(SNAPSHOT_FILE@)
                &&& only_clock_touched(old(datastore)@, final(datastore)@, expiration_enforcement)
                &&& clock_failure(e) ==> expiration_enforcement.enforced()
                &&& !(e is ExpiredMetadata) ==> final(datastore)@ == old(datastore)@
            },
        },
        first_named(timestamp.signed.meta@, SNAPSHOT_FILE@) is None ==> r is Err,
        first_named(timestamp.signed.meta@, SNAPSHOT_FILE@) matches Some(listed) ==> (
        snapshot_request_spec(*root, listed, metadata_base_url@) is Err ==> r is Err),
{
    let ghost before = datastore@;
    let listed = match find_named(&timestamp.signed.meta, SNAPSHOT_FILE) {
        Some(listed) => listed,
        None => {
            return Err(
                Error::MetaMissing {
                    file: String::from_str(SNAPSHOT_FILE),
                    role: RoleType::Timestamp,
                },
            );
        },
    };
    let request = match snapshot_request(
        metadata_base_url,
        root.signed.consistent_snapshot,
        listed,
    ) {
        Ok(request) => request,
        Err(e) => {
            return Err(e);
        },
    };
    let reader = match open(transport, &request) {
        Ok(reader) => reader,
        Err(e) => {
            return Err(e);
        },
    };
    let bytes = match reader.read_all() {
        Ok(bytes) => bytes,
        Err(e) => {
            return Err(e);
        },
    };
    let snapshot = match schema.parse_snapshot(bytes.as_slice()) {
        Some(snapshot) => snapshot,
        None => {
            return Err(Error::ParseMetadata { role: RoleType::Snapshot });
        },
    };
    let stored = match datastore.get(SNAPSHOT_FILE) {
        Some(old_bytes) => schema.parse_snapshot(old_bytes.as_slice()),
        None => None,
    };
    let ghost content = bytes@;
    match accept_snapshot(
        root,
        listed,
        &snapshot,
        &stored,
        bytes,
        datastore,
        expiration_enforcement,
    ) {
        Ok(()) => {},
        Err(e) => {
            proof {
                if snapshot_verdict(*root, *listed, snapshot, stored) is Ok {
                    lemma_expiry_failure_keeps_files(
                        e,
                        RoleType::Snapshot,
                        snapshot.signed.expires,
                        before,
                        datastore@,
                        expiration_enforcement,
                    );
                }
            }
            return Err(e);
        },
    }
    proof {
        lemma_file_names_differ();
        lemma_accepted_is_stored(
            RoleType::Snapshot,
            snapshot.signed.expires,
            SNAPSHOT_FILE@,
            content,
            before,
            datastore@,
            expiration_enforcement,
        );
    }
    Ok(snapshot)
}

/// How deep delegations may be nested: the roles that the top-level
/// targets role delegates to are at depth one.
pub const MAX_DELEGATION_DEPTH: u64 = 32;

/// Whether two sets of delegations name the same keys and the same roles,
/// apart from the targets metadata that the roles hold.
pub open spec fn same_roles(a: Delegations, b: Delegations) -> bool {
    &&& a.keys == b.keys
    &&& a.roles@.len() == b.roles@.len()
    &&& forall|i: int|
        0 <= i < a.roles@.len() ==> {
            &&& (#[trigger] a.roles@[i]).name == b.roles@[i].name
            &&& a.roles@[i].keyids == b.roles@[i].keyids
            &&& a.roles@[i].threshold == b.roles@[i].threshold
            &&& a.roles@[i].paths == b.roles@[i].paths
            &&& a.roles@[i].terminating == b.roles@[i].terminating
        }
}

/// Whether every file of `before` is a file of `after`.
pub open spec fn keeps_files(
    before: Map<Seq<char>, Seq<u8>>,
    after: Map<Seq<char>, Seq<u8>>,
) -> bool {
    forall|file: Seq<char>| #[trigger] before.contains_key(file) ==> after.contains_key(file)
}

/// Whether a store holds a file for every delegated role and for the roles
/// below them, each under the name by which it was fetched.
pub open spec fn delegations_stored(
    delegations: Delegations,
    consistent_snapshot: bool,
    store: Map<Seq<char>, Seq<u8>>,
) -> bool
    decreases delegations,
{
    roles_stored(delegations, consistent_snapshot, store, 0)
}

/// Whether a store holds a file for every delegated role from place `i` on
/// and for the roles below them.
pub open spec fn roles_stored(
    parent: Delegations,
    consistent_snapshot: bool,
    store: Map<Seq<char>, Seq<u8>>,
    i: int,
) -> bool
    decreases parent.roles@, parent.roles@.len() - i,
{
    if 0 <= i < parent.roles@.len() {
        &&& parent.roles@[i].targets matches Some(signed)
        &&& store.contains_key(
            metadata_file_name(
                consistent_snapshot,
                signed.signed.version as nat,
                role_file_name(parent.roles@[i].name@),
            ),
        )
        &&& (signed.signed.delegations matches Some(below) ==> delegations_stored(
            below,
            consistent_snapshot,
            store,
        ))
        &&& roles_stored(parent, consistent_snapshot, store, i + 1)
    } else {
        true
    }
}

/// Whether a store holds the file of a delegated role and the files of the
/// roles below it.
pub open spec fn role_stored(
    role: DelegatedRole,
    consistent_snapshot: bool,
    store: Map<Seq<char>, Seq<u8>>,
) -> bool {
    &&& role.targets matches Some(signed)
    &&& store.contains_key(
        metadata_file_name(
            consistent_snapshot,
            signed.signed.version as nat,
            role_file_name(role.name@),
        ),
    )
    &&& (signed.signed.delegations matches Some(below) ==> delegations_stored(
        below,
        consistent_snapshot,
        store,
    ))
}

/// Whether a store holds the file of each of a list of fetched roles.
pub open spec fn all_stored(
    fetched: Seq<(String, Signed<Targets>)>,
    consistent_snapshot: bool,
    store: Map<Seq<char>, Seq<u8>>,
) -> bool {
    forall|k: int|
        0 <= k < fetched.len() ==> store.contains_key(
            metadata_file_name(
                consistent_snapshot,
                (#[trigger] fetched[k]).1.signed.version as nat,
                role_file_name(fetched[k].0@),
            ),
        )
}

/// A store that holds the files of delegated roles still holds them when
/// files are added to it.
pub proof fn lemma_stored_stays(
    delegations: Delegations,
    consistent_snapshot: bool,
    before: Map<Seq<char>, Seq<u8>>,
    after: Map<Seq<char>, Seq<u8>>,
)
    requires
        delegations_stored(delegations, consistent_snapshot, before),
        keeps_files(before, after),
    ensures
        delegations_stored(delegations, consistent_snapshot, after),
    decreases delegations,
{
    lemma_roles_stored_stay(delegations, consistent_snapshot, before, after, 0);
}

proof fn lemma_roles_stored_stay(
    parent: Delegations,
    consistent_snapshot: bool,
    before: Map<Seq<char>, Seq<u8>>,
    after: Map<Seq<char>, Seq<u8>>,
    i: int,
)
    requires
        roles_stored(parent, consistent_snapshot, before, i),
        keeps_files(before, after),
    ensures
        roles_stored(parent, consistent_snapshot, after, i),
    decreases parent.roles@, parent.roles@.len() - i,
{
    if 0 <= i < parent.roles@.len() {
        let signed = parent.roles@[i].targets->0;
        if signed.signed.delegations is Some {
            lemma_stored_stays(signed.signed.delegations->0, consistent_snapshot, before, after);
        }
        lemma_roles_stored_stay(parent, consistent_snapshot, before, after, i + 1);
    }
}

/// A role whose file and the files below it are in a store still has them
/// there when files are added.
proof fn lemma_role_stored_stays(
    role: DelegatedRole,
    consistent_snapshot: bool,
    before: Map<Seq<char>, Seq<u8>>,
    after: Map<Seq<char>, Seq<u8>>,
)
    requires
        role_stored(role, consistent_snapshot, before),
        keeps_files(before, after),
    ensures
        role_stored(role, consistent_snapshot, after),
{
    let signed = role.targets->0;
    if signed.signed.delegations is Some {
        lemma_stored_stays(signed.signed.delegations->0, consistent_snapshot, before, after);
    }
}

/// Roles whose files are each in a store have them there from any place
/// on.
proof fn lemma_roles_stored(
    parent: Delegations,
    consistent_snapshot: bool,
    store: Map<Seq<char>, Seq<u8>>,
    i: int,
)
    requires
        0 <= i <= parent.roles@.len(),
        forall|j: int|
            0 <= j < parent.roles@.len() ==> role_stored(
                #[trigger] parent.roles@[j],
                consistent_snapshot,
                store,
            ),
    ensures
        roles_stored(parent, consistent_snapshot, store, i),
    decreases parent.roles@.len() - i,
{
    if i < parent.roles@.len() {
        assert(role_stored(parent.roles@[i], consistent_snapshot, store));
        lemma_roles_stored(parent, consistent_snapshot, store, i + 1);
    }
}

/// Whether each of a list of fetched roles is signed as `parent` asks of
/// the role of its name.
pub open spec fn all_signed(parent: Delegations, fetched: Seq<(String, Signed<Targets>)>) -> bool {
    forall|k: int|
        0 <= k < fetched.len() ==> parent.verifies(
            (#[trigger] fetched[k]).0@,
            fetched[k].1.signatures@,
            fetched[k].1.message@,
        )
}

/// Whether the delegated role at place `i` has its targets metadata,
/// signed as `parent` asks of it, and all is in order below it.
pub open spec fn role_loaded(parent: Delegations, role: DelegatedRole) -> bool {
    &&& role.targets matches Some(signed)
    &&& parent.verifies(role.name@, signed.signatures@, signed.message@)
    &&& (signed.signed.delegations matches Some(below) ==> delegations_verified(below))
}

/// What sets of delegations with the same keys and roles ask of a role's
/// signatures is the same.
proof fn lemma_same_roles_verify_alike(
    a: Delegations,
    b: Delegations,
    name: Seq<char>,
    signatures: Seq<crate::signature::Signature>,
    message: Seq<u8>,
)
    requires
        same_roles(a, b),
    ensures
        a.verifies(name, signatures, message) == b.verifies(name, signatures, message),
{
    lemma_role_index_by_names(a.roles@, b.roles@, name, 0);
}

/// Roles that are each loaded are loaded from any place on.
proof fn lemma_roles_loaded(original: Delegations, parent: Delegations, i: int)
    requires
        same_roles(original, parent),
        0 <= i <= parent.roles@.len(),
        forall|j: int|
            0 <= j < parent.roles@.len() ==> role_loaded(original, #[trigger] parent.roles@[j]),
    ensures
        roles_verified(parent, i),
    decreases parent.roles@.len() - i,
{
    if i < parent.roles@.len() {
        let role = parent.roles@[i];
        assert(role_loaded(original, role));
        let signed = role.targets->0;
        lemma_same_roles_verify_alike(
            original,
            parent,
            role.name@,
            signed.signatures@,
            signed.message@,
        );
        lemma_roles_loaded(original, parent, i + 1);
    }
}

/// Whether two stores agree on the file `file`: both lack it, or both
/// hold it with the same content.
pub open spec fn unchanged_at(
    before: Map<Seq<char>, Seq<u8>>,
    after: Map<Seq<char>, Seq<u8>>,
    file: Seq<char>,
) -> bool {
    &&& before.contains_key(file) == after.contains_key(file)
    &&& before.contains_key(file) ==> after[file] == before[file]
}

/// Whether two stores differ at most in the files that `files` names.
pub open spec fn wrote_only(
    before: Map<Seq<char>, Seq<u8>>,
    after: Map<Seq<char>, Seq<u8>>,
    files: Seq<Seq<char>>,
) -> bool {
    forall|file: Seq<char>| !files.contains(file) ==> #[trigger] unchanged_at(before, after, file)
}

/// The name under which the file of the delegated role `name` is
/// fetched and kept, by the version in which `meta` lists it.
spec fn listed_name(
    meta: Seq<(String, SnapshotMeta)>,
    consistent_snapshot: bool,
    name: Seq<char>,
) -> Seq<char> {
    metadata_file_name(
        consistent_snapshot,
        match first_named(meta, role_file_name(name)) {
            Some(listed) => listed.version as nat,
            None => 0,
        },
        role_file_name(name),
    )
}

/// Whether `file` is the file of none of the first `n` roles.
spec fn off_level(
    roles: Seq<DelegatedRole>,
    meta: Seq<(String, SnapshotMeta)>,
    consistent_snapshot: bool,
    n: int,
    file: Seq<char>,
) -> bool {
    forall|j: int|
        0 <= j < n ==> listed_name(meta, consistent_snapshot, (#[trigger] roles[j]).name@) != file
}

/// Whether `file` is a file of none of the roles below the first `n`
/// roles.
spec fn off_below(
    roles: Seq<DelegatedRole>,
    consistent_snapshot: bool,
    n: int,
    file: Seq<char>,
) -> bool {
    forall|j: int|
        0 <= j < n ==> ((#[trigger] roles[j]).targets matches Some(signed) ==> !role_files_in(
            signed.signed,
            consistent_snapshot,
        ).contains(file))
}

/// Whether no two of a list of delegated roles share a name.
pub open spec fn names_differ(roles: Seq<DelegatedRole>) -> bool {
    forall|a: int, b: int|
        0 <= a < b < roles.len() ==> (#[trigger] roles[a]).name@ != (#[trigger] roles[b]).name@
}

/// Whether the snapshot's list `meta` names every delegated role, each in
/// the version that its targets metadata has, no two roles of one level
/// share a name, and the same holds of the roles below them.
pub open spec fn delegations_listed(
    delegations: Delegations,
    meta: Seq<(String, SnapshotMeta)>,
) -> bool
    decreases delegations,
{
    names_differ(delegations.roles@) && roles_listed(delegations, meta, 0)
}

/// Whether `meta` names the delegated roles from place `i` on, each in the
/// version that its targets metadata has, and all is in order below them.
pub open spec fn roles_listed(
    parent: Delegations,
    meta: Seq<(String, SnapshotMeta)>,
    i: int,
) -> bool
    decreases parent.roles@, parent.roles@.len() - i,
{
    if 0 <= i < parent.roles@.len() {
        &&& parent.roles@[i].targets matches Some(signed)
        &&& first_named(meta, role_file_name(parent.roles@[i].name@)) matches Some(listed)
        &&& listed.version == signed.signed.version
        &&& (signed.signed.delegations matches Some(below) ==> delegations_listed(below, meta))
        &&& roles_listed(parent, meta, i + 1)
    } else {
        true
    }
}

/// Whether `meta` names a delegated role in the version that its targets
/// metadata has, and all is in order below it.
pub open spec fn role_listed(role: DelegatedRole, meta: Seq<(String, SnapshotMeta)>) -> bool {
    &&& role.targets matches Some(signed)
    &&& first_named(meta, role_file_name(role.name@)) matches Some(listed)
    &&& listed.version == signed.signed.version
    &&& (signed.signed.delegations matches Some(below) ==> delegations_listed(below, meta))
}

/// Roles that are each listed are listed from any place on.
proof fn lemma_roles_listed(parent: Delegations, meta: Seq<(String, SnapshotMeta)>, i: int)
    requires
        0 <= i <= parent.roles@.len(),
        forall|j: int|
            0 <= j < parent.roles@.len() ==> role_listed(#[trigger] parent.roles@[j], meta),
    ensures
        roles_listed(parent, meta, i),
    decreases parent.roles@.len() - i,
{
    if i < parent.roles@.len() {
        assert(role_listed(parent.roles@[i], meta));
        lemma_roles_listed(parent, meta, i + 1);
    }
}

/// Whether each of a list of fetched roles has the version in which `meta`
/// names its file.
pub open spec fn all_listed(
    fetched: Seq<(String, Signed<Targets>)>,
    meta: Seq<(String, SnapshotMeta)>,
) -> bool {
    forall|k: int|
        0 <= k < fetched.len() ==> (first_named(
            meta,
            role_file_name((#[trigger] fetched[k]).0@),
        ) matches Some(listed) && listed.version == fetched[k].1.signed.version)
}

/// Whether no two entries of a list have the same name.
pub open spec fn entries_differ<V>(entries: Seq<(String, V)>) -> bool {
    forall|a: int, b: int|
        0 <= a < b < entries.len() ==> (#[trigger] entries[a]).0@ != (#[trigger] entries[b]).0@
}

/// Whether a list has no entry of a given name.
pub open spec fn no_entry<V>(entries: Seq<(String, V)>, name: Seq<char>) -> bool {
    forall|k: int| 0 <= k < entries.len() ==> (#[trigger] entries[k]).0@ != name
}

/// Whether `e` is a failure that loading delegated roles can end in, each
/// with what brings it: a role that `meta` does not list, an address that
/// cannot be made, a download that fails or overruns `max_targets_size`,
/// a file that cannot be read as targets metadata, is not signed as the
/// delegating role asks or has another version than the listed one, path
/// patterns that are not well formed, two roles of one name, or
/// delegations that are nested too deep.
pub open spec fn delegation_failure(
    e: ErrorView,
    meta: Seq<(String, SnapshotMeta)>,
    base: Seq<char>,
    max_targets_size: u64,
) -> bool {
    match e {
        ErrorView::RoleNotInMeta { name } => first_named(meta, role_file_name(name)) is None,
        ErrorView::JoinUrl { path, url } => url == base && url_joined(base, path) is None,
        ErrorView::Transport { .. } => true,
        ErrorView::MaxSizeExceeded { max_size, specifier } => max_size == max_targets_size
            && specifier == MAX_TARGETS_SIZE_SPECIFIER@,
        ErrorView::ParseMetadata { role } => role == RoleType::Targets,
        ErrorView::VerifyMetadata { role } => role == RoleType::Targets,
        ErrorView::VersionMismatch { role, fetched, expected } => role == RoleType::Targets
            && fetched != expected,
        ErrorView::InvalidPath => true,
        ErrorView::DelegatedRolesNotConsistent { .. } => true,
        ErrorView::MaxDelegationDepthExceeded { max_depth } => max_depth == MAX_DELEGATION_DEPTH,
        _ => false,
    }
}

/// Whether place `k` of a list is the first place of an entry of a given
/// name.
pub open spec fn first_place<V>(entries: Seq<(String, V)>, name: Seq<char>, k: int) -> bool {
    &&& 0 <= k < entries.len()
    &&& entries[k].0@ == name
    &&& forall|j: int| 0 <= j < k ==> (#[trigger] entries[j]).0@ != name
}

/// Takes the first entry of a given name out of a list: its value is
/// returned, and the entries before and after it stay in their order.
/// Where the list has no entry of that name, it stays as it is.
fn take_named<V>(list: &mut Vec<(String, V)>, name: &str) -> (r: Option<V>)
    ensures
        r == first_named(old(list)@, name@),
        match r {
            Some(value) => exists|k: int|
                first_place(old(list)@, name@, k) && (#[trigger] old(list)@[k]).0@ == name@
                    && old(list)@[k].1 == value && final(list)@ == old(list)@.remove(k),
            None => {
                &&& final(list)@ == old(list)@
                &&& forall|k: int|
                    0 <= k < old(list)@.len() ==> (#[trigger] old(list)@[k]).0@ != name@
            },
        },
{
    let mut i: usize = 0;
    assert(list@.skip(0) =~= list@);
    while i < list.len()
        invariant
            i <= list.len(),
            list@ == old(list)@,
            first_named(list@, name@) == first_named(list@.skip(i as int), name@),
            forall|j: int| 0 <= j < i ==> (#[trigger] list@[j]).0@ != name@,
        decreases list.len() - i,
    {
        assert(list@.skip(i as int).drop_first() =~= list@.skip(i + 1));
        if crate::text::str_equal(list[i].0.as_str(), name) {
            let entry = list.remove(i);
            assert(first_place(old(list)@, name@, i as int));
            return Some(entry.1);
        }
        i = i + 1;
    }
    None
}

/// Loads the targets metadata of the roles that a targets role delegates
/// to, and of the roles below them.
///
/// Each role must be listed in the snapshot. Its file is fetched from the
/// metadata base under the role's name with `.json`, or, in a repository
/// with consistent snapshots, under that name with the version before it;
/// it is cut off at `max_targets_size` bytes. It must be signed as the
/// delegating role asks of the role, have the version that the snapshot
/// lists, and delegate with well-formed path patterns. Then it is written
/// to the datastore under the name that it was fetched by. Once all roles
/// of one level are fetched and checked, each is attached to its entry and
/// the roles below it are loaded in the same way, down to
/// `MAX_DELEGATION_DEPTH` levels.
pub fn load_delegations<T: Transport, S: Schema>(
    transport: &T,
    schema: &S,
    snapshot: &Signed<Snapshot>,
    consistent_snapshot: bool,
    metadata_base_url: &Url,
    max_targets_size: u64,
    delegation: &mut Delegations,
    datastore: &mut Datastore,
) -> (r: Result<(), Error>)
    ensures
        match r {
            Ok(()) => {
                &&& delegations_verified(*final(delegation))
                &&& same_roles(*old(delegation), *final(delegation))
                &&& delegations_listed(*final(delegation), snapshot.signed.meta@)
                &&& delegations_stored(*final(delegation), consistent_snapshot, final(datastore)@)
                &&& wrote_only(
                    old(datastore)@,
                    final(datastore)@,
                    role_files_in_roles(final(delegation).roles@, consistent_snapshot, 0),
                )
            },
            Err(e) => delegation_failure(
                e@,
                snapshot.signed.meta@,
                metadata_base_url@,
                max_targets_size,
            ),
        },
        keeps_files(old(datastore)@, final(datastore)@),
        old(delegation).roles@.len() == 0 ==> r is Ok && final(datastore)@ == old(datastore)@,
        first_role_unlisted(*old(delegation), *snapshot) ==> outcome(r) == Err::<(), ErrorView>(
            ErrorView::RoleNotInMeta { name: old(delegation).roles@[0].name@ },
        ) && *final(delegation) == *old(delegation) && final(datastore)@ == old(datastore)@,
{
    load_delegations_below(
        transport,
        schema,
        snapshot,
        consistent_snapshot,
        metadata_base_url,
        max_targets_size,
        delegation,
        datastore,
        MAX_DELEGATION_DEPTH,
    )
}

/// Whether there is a first delegated role and the snapshot does not list
/// its file.
pub open spec fn first_role_unlisted(delegation: Delegations, snapshot: Signed<Snapshot>) -> bool {
    delegation.roles@.len() > 0 && first_named(
        snapshot.signed.meta@,
        role_file_name(delegation.roles@[0].name@),
    ) is None
}

/// Fetches and checks the targets metadata of one delegated role.
fn fetch_delegated_role<T: Transport, S: Schema>(
    transport: &T,
    schema: &S,
    snapshot: &Signed<Snapshot>,
    consistent_snapshot: bool,
    metadata_base_url: &Url,
    max_targets_size: u64,
    delegation: &Delegations,
    name: &str,
    datastore: &mut Datastore,
) -> (r: Result<Signed<Targets>, Error>)
    ensures
        keeps_files(old(datastore)@, final(datastore)@),
        first_named(snapshot.signed.meta@, role_file_name(name@)) is None ==> outcome(r) == Err::<
            Signed<Targets>,
            ErrorView,
        >(ErrorView::RoleNotInMeta { name: name@ }),
        match r {
            Ok(role) => {
                &&& delegation.verifies(name@, role.signatures@, role.message@)
                &&& first_named(snapshot.signed.meta@, role_file_name(name@)) matches Some(listed)
                &&& listed.version == role.signed.version
                &&& final(datastore)@.contains_key(
                    metadata_file_name(
                        consistent_snapshot,
                        role.signed.version as nat,
                        role_file_name(name@),
                    ),
                )
                &&& final(datastore)@ == old(datastore)@.insert(
                    metadata_file_name(
                        consistent_snapshot,
                        role.signed.version as nat,
                        role_file_name(name@),
                    ),
                    final(datastore)@[metadata_file_name(
                        consistent_snapshot,
                        role.signed.version as nat,
                        role_file_name(name@),
                    )],
                )
                &&& final(datastore)@[metadata_file_name(
                    consistent_snapshot,
                    role.signed.version as nat,
                    role_file_name(name@),
                )].len() <= max_targets_size
            },
            Err(e) => {
                &&& delegation_failure(
                    e@,
                    snapshot.signed.meta@,
                    metadata_base_url@,
                    max_targets_size,
                )
                &&& final(datastore)@ == old(datastore)@
            },
        },
{
    let file = role_path(name);
    let listed = match find_named(&snapshot.signed.meta, file.as_str()) {
        Some(listed) => listed,
        None => {
            return Err(Error::RoleNotInMeta { name: String::from_str(name) });
        },
    };
    let path = metadata_path(consistent_snapshot, listed.version, file.as_str());
    let request = match delegated_role_request(
        metadata_base_url,
        consistent_snapshot,
        listed,
        name,
        max_targets_size,
    ) {
        Ok(request) => request,
        Err(e) => {
            return Err(e);
        },
    };
    let reader = match open(transport, &request) {
        Ok(reader) => reader,
        Err(e) => {
            return Err(e);
        },
    };
    let bytes = match reader.read_all() {
        Ok(bytes) => bytes,
        Err(e) => {
            return Err(e);
        },
    };
    let role = match schema.parse_targets(bytes.as_slice()) {
        Some(role) => role,
        None => {
            return Err(Error::ParseMetadata { role: RoleType::Targets });
        },
    };
    match check_delegated_role(delegation, name, listed, &role) {
        Ok(()) => {},
        Err(e) => {
            return Err(e);
        },
    }
    match &role.signed.delegations {
        Some(delegations) => {
            if !schema.verify_paths(delegations) {
                return Err(Error::InvalidPath);
            }
        },
        None => {},
    }
    datastore.create(path.as_str(), bytes);
    Ok(role)
}

fn load_delegations_below<T: Transport, S: Schema>(
    transport: &T,
    schema: &S,
    snapshot: &Signed<Snapshot>,
    consistent_snapshot: bool,
    metadata_base_url: &Url,
    max_targets_size: u64,
    delegation: &mut Delegations,
    datastore: &mut Datastore,
    levels: u64,
) -> (r: Result<(), Error>)
    ensures
        match r {
            Ok(()) => {
                &&& delegations_verified(*final(delegation))
                &&& same_roles(*old(delegation), *final(delegation))
                &&& delegations_listed(*final(delegation), snapshot.signed.meta@)
                &&& delegations_stored(*final(delegation), consistent_snapshot, final(datastore)@)
                &&& wrote_only(
                    old(datastore)@,
                    final(datastore)@,
                    role_files_in_roles(final(delegation).roles@, consistent_snapshot, 0),
                )
            },
            Err(e) => delegation_failure(
                e@,
                snapshot.signed.meta@,
                metadata_base_url@,
                max_targets_size,
            ),
        },
        keeps_files(old(datastore)@, final(datastore)@),
        levels > 0 && old(delegation).roles@.len() == 0 ==> r is Ok
            && final(datastore)@ == old(datastore)@,
        levels > 0 && first_role_unlisted(*old(delegation), *snapshot) ==> outcome(r) == Err::<
            (),
            ErrorView,
        >(ErrorView::RoleNotInMeta { name: old(delegation).roles@[0].name@ }) && *final(delegation)
            == *old(delegation) && final(datastore)@ == old(datastore)@,
    decreases levels,
{
    if levels == 0 {
        return Err(Error::MaxDelegationDepthExceeded { max_depth: MAX_DELEGATION_DEPTH });
    }
    let ghost original = *delegation;
    let ghost untouched = datastore@;
    let mut fetched: Vec<(String, Signed<Targets>)> = Vec::new();
    let mut i: usize = 0;
    while i < delegation.roles.len()
        invariant
            *delegation == original,
            i <= delegation.roles.len(),
            original == *old(delegation),
            untouched == old(datastore)@,
            i == 0 ==> datastore@ == untouched,
            keeps_files(untouched, datastore@),
            all_signed(original, fetched@),
            all_stored(fetched@, consistent_snapshot, datastore@),
            all_listed(fetched@, snapshot.signed.meta@),
            entries_differ(fetched@),
            i > 0 ==> !first_role_unlisted(original, *snapshot),
            forall|file: Seq<char>|
                off_level(
                    original.roles@,
                    snapshot.signed.meta@,
                    consistent_snapshot,
                    i as int,
                    file,
                ) ==> #[trigger] unchanged_at(untouched, datastore@, file),
        decreases delegation.roles.len() - i,
    {
        let ghost store_then = datastore@;
        let name = delegation.roles[i].name.clone();
        let role = match fetch_delegated_role(
            transport,
            schema,
            snapshot,
            consistent_snapshot,
            metadata_base_url,
            max_targets_size,
            delegation,
            name.as_str(),
            datastore,
        ) {
            Ok(role) => role,
            Err(e) => {
                return Err(e);
            },
        };
        let _ = take_named(&mut fetched, name.as_str());
        assert(no_entry(fetched@, name@));
        proof {
            let meta = snapshot.signed.meta@;
            assert forall|file: Seq<char>|
                off_level(
                    original.roles@,
                    meta,
                    consistent_snapshot,
                    i + 1,
                    file,
                ) implies #[trigger] unchanged_at(untouched, datastore@, file) by {
                assert(off_level(original.roles@, meta, consistent_snapshot, i as int, file));
                assert(unchanged_at(untouched, store_then, file));
                assert(listed_name(meta, consistent_snapshot, original.roles@[i as int].name@)
                    != file);
            }
        }
        fetched.push((name, role));
        i = i + 1;
    }
    let mut i: usize = 0;
    while i < delegation.roles.len()
        invariant
            same_roles(original, *delegation),
            i <= delegation.roles.len(),
            levels > 0,
            original == *old(delegation),
            untouched == old(datastore)@,
            original.roles@.len() == 0 ==> datastore@ == untouched,
            keeps_files(untouched, datastore@),
            all_signed(original, fetched@),
            all_stored(fetched@, consistent_snapshot, datastore@),
            all_listed(fetched@, snapshot.signed.meta@),
            entries_differ(fetched@),
            !first_role_unlisted(original, *snapshot),
            forall|file: Seq<char>|
                off_level(
                    original.roles@,
                    snapshot.signed.meta@,
                    consistent_snapshot,
                    original.roles@.len() as int,
                    file,
                ) && off_below(delegation.roles@, consistent_snapshot, i as int, file)
                    ==> #[trigger] unchanged_at(untouched, datastore@, file),
            forall|j: int| 0 <= j < i ==> no_entry(fetched@, (#[trigger] original.roles@[j]).name@),
            forall|a: int, b: int|
                0 <= a < b < i ==> (#[trigger] original.roles@[a]).name@
                    != (#[trigger] original.roles@[b]).name@,
            forall|j: int|
                0 <= j < i ==> role_listed(#[trigger] delegation.roles@[j], snapshot.signed.meta@),
            forall|j: int| 0 <= j < i ==> role_loaded(original, #[trigger] delegation.roles@[j]),
            forall|j: int|
                0 <= j < i ==> role_stored(
                    #[trigger] delegation.roles@[j],
                    consistent_snapshot,
                    datastore@,
                ),
        decreases delegation.roles.len() - i,
    {
        let ghost store_then = datastore@;
        let ghost fetched_then = fetched@;
        let name = delegation.roles[i].name.clone();
        let mut role = match take_named(&mut fetched, name.as_str()) {
            Some(role) => role,
            None => {
                return Err(Error::DelegatedRolesNotConsistent { name });
            },
        };
        proof {
            let k = choose|k: int|
                first_place(fetched_then, name@, k) && (#[trigger] fetched_then[k]).0@ == name@
                    && fetched_then[k].1 == role && fetched@ == fetched_then.remove(k);
            assert(no_entry(fetched@, name@)) by {
                assert forall|m: int| 0 <= m < fetched@.len() implies (#[trigger] fetched@[m]).0@
                    != name@ by {
                    if m < k {
                        assert(fetched@[m] == fetched_then[m]);
                    } else {
                        assert(fetched@[m] == fetched_then[m + 1]);
                    }
                }
            }
            assert forall|j: int| 0 <= j < i implies no_entry(
                fetched@,
                (#[trigger] original.roles@[j]).name@,
            ) by {
                assert(no_entry(fetched_then, original.roles@[j].name@));
                assert forall|m: int| 0 <= m < fetched@.len() implies (#[trigger] fetched@[m]).0@
                    != original.roles@[j].name@ by {
                    if m < k {
                        assert(fetched@[m] == fetched_then[m]);
                    } else {
                        assert(fetched@[m] == fetched_then[m + 1]);
                    }
                }
            }
            assert forall|j: int| 0 <= j < i implies (#[trigger] original.roles@[j]).name@
                != name@ by {
                assert(no_entry(fetched_then, original.roles@[j].name@));
            }
        }
        match role.signed.delegations.take() {
            Some(below) => {
                let mut below = below;
                match load_delegations_below(
                    transport,
                    schema,
                    snapshot,
                    consistent_snapshot,
                    metadata_base_url,
                    max_targets_size,
                    &mut below,
                    datastore,
                    levels - 1,
                ) {
                    Ok(()) => {},
                    Err(e) => {
                        return Err(e);
                    },
                }
                role.signed.delegations = Some(below);
            },
            None => {},
        }
        let ghost roles_before = delegation.roles@;
        delegation.roles[i].targets = Some(role);
        proof {
            let meta = snapshot.signed.meta@;
            assert forall|file: Seq<char>|
                off_level(
                    original.roles@,
                    meta,
                    consistent_snapshot,
                    original.roles@.len() as int,
                    file,
                ) && off_below(
                    delegation.roles@,
                    consistent_snapshot,
                    i + 1,
                    file,
                ) implies #[trigger] unchanged_at(untouched, datastore@, file) by {
                assert(off_below(roles_before, consistent_snapshot, i as int, file)) by {
                    assert forall|j: int| 0 <= j < i implies ((
                    #[trigger] roles_before[j]).targets matches Some(signed) ==> !role_files_in(
                        signed.signed,
                        consistent_snapshot,
                    ).contains(file)) by {
                        assert(delegation.roles@[j] == roles_before[j]);
                    }
                }
                assert(unchanged_at(untouched, store_then, file));
                let attached = delegation.roles@[i as int].targets->0;
                assert(!role_files_in(attached.signed, consistent_snapshot).contains(file));
                assert(unchanged_at(store_then, datastore@, file));
            }
            assert forall|j: int| 0 <= j < i + 1 implies role_loaded(
                original,
                #[trigger] delegation.roles@[j],
            ) by {
                if j < i {
                    assert(delegation.roles@[j] == roles_before[j]);
                }
            }
            assert forall|j: int| 0 <= j < i + 1 implies role_stored(
                #[trigger] delegation.roles@[j],
                consistent_snapshot,
                datastore@,
            ) by {
                if j < i {
                    assert(delegation.roles@[j] == roles_before[j]);
                    lemma_role_stored_stays(
                        roles_before[j],
                        consistent_snapshot,
                        store_then,
                        datastore@,
                    );
                }
            }
        }
        i = i + 1;
    }
    proof {
        lemma_roles_loaded(original, *delegation, 0);
        lemma_roles_stored(*delegation, consistent_snapshot, datastore@, 0);
        lemma_roles_listed(*delegation, snapshot.signed.meta@, 0);
        let meta = snapshot.signed.meta@;
        let roles = delegation.roles@;
        let all = role_files_in_roles(roles, consistent_snapshot, 0);
        assert forall|file: Seq<char>| !all.contains(file) implies #[trigger] unchanged_at(
            untouched,
            datastore@,
            file,
        ) by {
            assert forall|j: int| 0 <= j < roles.len() implies listed_name(
                meta,
                consistent_snapshot,
                (#[trigger] original.roles@[j]).name@,
            ) != file by {
                assert(role_listed(roles[j], meta));
                assert(original.roles@[j].name == roles[j].name);
                lemma_role_files_hold(roles, consistent_snapshot, 0, j);
            }
            assert forall|j: int| 0 <= j < roles.len() implies ((
            #[trigger] roles[j]).targets matches Some(signed) ==> !role_files_in(
                signed.signed,
                consistent_snapshot,
            ).contains(file)) by {
                assert(role_listed(roles[j], meta));
                lemma_role_files_hold(roles, consistent_snapshot, 0, j);
            }
            assert(off_level(
                original.roles@,
                meta,
                consistent_snapshot,
                original.roles@.len() as int,
                file,
            ));
            assert(off_below(roles, consistent_snapshot, roles.len() as int, file));
        }
        assert(names_differ(delegation.roles@)) by {
            assert forall|a: int, b: int| 0 <= a < b < delegation.roles@.len() implies (
            #[trigger] delegation.roles@[a]).name@ != (#[trigger] delegation.roles@[b]).name@ by {
                assert(original.roles@[a].name == delegation.roles@[a].name);
                assert(original.roles@[b].name == delegation.roles@[b].name);
            }
        }
    }
    Ok(())
}

/// The length at which the download of a request is cut off: the length
/// that the request names, and no more than can be digested where it names
/// a digest.
pub open spec fn request_limit(request: FetchRequestView) -> u64 {
    if request.sha256 is Some {
        digest_limit(request.max_size)
    } else {
        request.max_size
    }
}

/// Whether `e` is a failure of the top-level targets metadata once its
/// address was made: one of the download `request`, one of a file that
/// cannot be read as targets metadata, has another version than the
/// listed one, is not signed as the root asks, is older than the one in
/// store or has expired, or one of the clock.
pub open spec fn top_targets_failure(
    e: ErrorView,
    listed: SnapshotMeta,
    request: FetchRequestView,
) -> bool {
    match e {
        ErrorView::Transport { .. } => true,
        ErrorView::MaxSizeExceeded { max_size, specifier } => max_size == request_limit(request)
            && specifier == request.specifier,
        ErrorView::HashMismatch { .. } => listed.sha256 is Some,
        ErrorView::ParseMetadata { role } => role == RoleType::Targets,
        ErrorView::VersionMismatch { role, fetched, expected } => role == RoleType::Targets
            && expected == listed.version && fetched != expected,
        ErrorView::VerifyMetadata { role } => role == RoleType::Targets,
        ErrorView::OlderMetadata { role, current_version, new_version } => role
            == RoleType::Targets && new_version < current_version,
        ErrorView::ExpiredMetadata { role } => role == RoleType::Targets,
        ErrorView::SystemTimeSteppedBackward { .. } => true,
        ErrorView::DatastoreSerialize { .. } => true,
        _ => false,
    }
}

/// Whether `e` is a failure that loading the targets metadata can end in,
/// each with what brings it. Where the snapshot does not list
/// `targets.json`, or the address cannot be made, that is the failure.
/// Else it is one of the top-level targets metadata or one of the
/// delegated roles.
pub open spec fn targets_failure(
    e: ErrorView,
    root: Signed<Root>,
    snapshot: Snapshot,
    base: Seq<char>,
    max_targets_size: u64,
) -> bool {
    match first_named(snapshot.meta@, TARGETS_FILE@) {
        None => e == (ErrorView::MetaMissing { file: TARGETS_FILE@, role: RoleType::Timestamp }),
        Some(listed) => match targets_request_spec(root, listed, base, max_targets_size) {
            Err(failure) => e == failure,
            Ok(request) => top_targets_failure(e, listed, request) || delegation_failure(
                e,
                snapshot.meta@,
                base,
                max_targets_size,
            ),
        },
    }
}

/// Whether a failure can only come of the top-level targets metadata, and
/// not of a delegated role.
pub open spec fn before_delegations(e: Error) -> bool {
    e is MetaMissing || e is HashMismatch || e is OlderMetadata || clock_failure(e)
}

/// Whether a failure can only come of a delegated role.
pub open spec fn among_delegations(e: Error) -> bool {
    e is RoleNotInMeta || e is InvalidPath || e is DelegatedRolesNotConsistent
        || e is MaxDelegationDepthExceeded
}

/// Whether `after` is `before` with the top-level targets metadata that
/// the snapshot lists as `listed` written to it: `targets.json` is no
/// longer than the listing or else `max_targets_size` admits and has the
/// digest that the listing names, and nothing else differs but, where
/// expirations are enforced, the clock record.
pub open spec fn targets_stored(
    before: Map<Seq<char>, Seq<u8>>,
    after: Map<Seq<char>, Seq<u8>>,
    listed: SnapshotMeta,
    max_targets_size: u64,
    enforcement: ExpirationEnforcement,
) -> bool {
    &&& only_wrote(before, after, TARGETS_FILE@, enforcement)
    &&& after.contains_key(TARGETS_FILE@)
    &&& after[TARGETS_FILE@].len() <= match listed.length {
        Some(length) => length,
        None => max_targets_size,
    }
    &&& listed.sha256 matches Some(digest) ==> sha256(after[TARGETS_FILE@]) == digest@
}

/// Whether two stores differ at most in `targets.json`, in the files that
/// `files` names and, where expirations are enforced, in the clock record.
pub open spec fn wrote_targets_only(
    before: Map<Seq<char>, Seq<u8>>,
    after: Map<Seq<char>, Seq<u8>>,
    files: Seq<Seq<char>>,
    enforcement: ExpirationEnforcement,
) -> bool {
    forall|file: Seq<char>|
        !files.contains(file) && file != TARGETS_FILE@ && !(enforcement.enforced() && file
            == LATEST_KNOWN_TIME_FILE@) ==> #[trigger] unchanged_at(before, after, file)
}

/// Stores that differ at most in the clock record agree on every other
/// file.
pub proof fn lemma_only_clock_touched_elsewhere(
    before: Map<Seq<char>, Seq<u8>>,
    after: Map<Seq<char>, Seq<u8>>,
    enforcement: ExpirationEnforcement,
    file: Seq<char>,
)
    requires
        only_clock_touched(before, after, enforcement),
        file != LATEST_KNOWN_TIME_FILE@,
    ensures
        unchanged_at(before, after, file),
{
    let clock = LATEST_KNOWN_TIME_FILE@;
    if enforcement.enforced() {
        let a = after.remove(clock);
        let b = before.remove(clock);
        assert(a == b);
        assert(a.contains_key(file) == after.contains_key(file));
        assert(b.contains_key(file) == before.contains_key(file));
        if before.contains_key(file) {
            assert(a[file] == after[file]);
            assert(b[file] == before[file]);
        }
    }
}

/// Stores that differ at most in one file and in the clock record agree on
/// every other file.
pub proof fn lemma_only_wrote_elsewhere(
    before: Map<Seq<char>, Seq<u8>>,
    after: Map<Seq<char>, Seq<u8>>,
    written: Seq<char>,
    enforcement: ExpirationEnforcement,
    file: Seq<char>,
)
    requires
        only_wrote(before, after, written, enforcement),
        file != written,
        !(enforcement.enforced() && file == LATEST_KNOWN_TIME_FILE@),
    ensures
        unchanged_at(before, after, file),
{
    let clock = LATEST_KNOWN_TIME_FILE@;
    if enforcement.enforced() {
        let a = after.remove(written).remove(clock);
        let b = before.remove(written).remove(clock);
        assert(a == b);
        assert(a.contains_key(file) == after.contains_key(file));
        assert(b.contains_key(file) == before.contains_key(file));
        if before.contains_key(file) {
            assert(a[file] == after[file]);
            assert(b[file] == before[file]);
        }
    } else {
        let a = after.remove(written);
        let b = before.remove(written);
        assert(a == b);
        assert(a.contains_key(file) == after.contains_key(file));
        assert(b.contains_key(file) == before.contains_key(file));
        if before.contains_key(file) {
            assert(a[file] == after[file]);
            assert(b[file] == before[file]);
        }
    }
}

/// Loads the top-level targets metadata, and the targets metadata of all
/// delegated roles: the fourth step of an update.
///
/// The snapshot names the version of the targets metadata and may name
/// its length and digest. The file is fetched from the metadata base under
/// `targets.json`, or, in a repository with consistent snapshots, under
/// that name with the version before it. It is cut off at the length that
/// the snapshot lists or else at `max_targets_size` bytes, and must have
/// the digest that the snapshot lists, if it lists one. It must have the
/// version that the snapshot lists, be signed as the root asks, and not be
/// older than targets metadata in the datastore that is signed as the root
/// asks. Where expirations are enforced, it must not have expired. Then it
/// is written to the datastore as `targets.json`, and the delegated roles
/// are loaded.
pub fn load_targets<T: Transport, S: Schema>(
    transport: &T,
    schema: &S,
    root: &Signed<Root>,
    snapshot: &Signed<Snapshot>,
    datastore: &mut Datastore,
    max_targets_size: u64,
    metadata_base_url: &Url,
    expiration_enforcement: ExpirationEnforcement,
) -> (r: Result<Signed<Targets>, Error>)
    ensures
        match r {
            Ok(targets) => {
                &&& signed_by(*root, RoleType::Targets, targets)
                &&& first_named(snapshot.signed.meta@, TARGETS_FILE@) matches Some(listed)
                &&& targets.signed.version == listed.version
                &&& targets.signed.delegations matches Some(delegations) ==> delegations_verified(
                    delegations,
                ) && delegations_listed(delegations, snapshot.signed.meta@) && delegations_stored(
                    delegations,
                    root.signed.consistent_snapshot,
                    final(datastore)@,
                )
                &&& keeps_files(old(datastore)@, final(datastore)@)
                &&& final(datastore)@.contains_key(TARGETS_FILE@)
                &&& exists|stored: Map<Seq<char>, Seq<u8>>| #[trigger]
                    targets_stored(
                        old(datastore)@,
                        stored,
                        listed,
                        max_targets_size,
                        expiration_enforcement,
                    ) && (expiration_enforcement.enforced() ==> fresh(
                        stored,
                        targets.signed.expires,
                    )) && wrote_only(
                        stored,
                        final(datastore)@,
                        role_files_in(targets.signed, root.signed.consistent_snapshot),
                    )
                &&& wrote_targets_only(
                    old(datastore)@,
                    final(datastore)@,
                    role_files_in(targets.signed, root.signed.consistent_snapshot),
                    expiration_enforcement,
                )
                &&& root.signed.consistent_snapshot || !role_files_in(
                    targets.signed,
                    false,
                ).contains(TARGETS_FILE@) ==> {
                    &&& final(datastore)@[TARGETS_FILE@].len() <= match listed.length {
                        Some(length) => length,
                        None => max_targets_size,
                    }
                    &&& listed.sha256 matches Some(digest) ==> sha256(
                        final(datastore)@[TARGETS_FILE@],
                    ) == digest@
                }
                &&& root.signed.consistent_snapshot || !role_files_in(
                    targets.signed,
                    false,
                ).contains(LATEST_KNOWN_TIME_FILE@) ==> {
                    &&& expiration_enforcement.enforced() ==> fresh(
                        final(datastore)@,
                        targets.signed.expires,
                    )
                    &&& !expiration_enforcement.enforced() ==> unchanged_at(
                        old(datastore)@,
                        final(datastore)@,
                        LATEST_KNOWN_TIME_FILE@,
                    )
                }
                &&& targets.signed.delegations is None ==> only_wrote(
                    old(datastore)@,
                    final(datastore)@,
                    TARGETS_FILE@,
                    expiration_enforcement,
                )
            },
            Err(e) => {
                &&& targets_failure(
                    e@,
                    *root,
                    snapshot.signed,
                    metadata_base_url@,
                    max_targets_size,
                )
                &&& clock_failure(e) ==> expiration_enforcement.enforced()
                &&& e is OlderMetadata ==> old(datastore)@.contains_key(TARGETS_FILE@)
                &&& keeps_files(old(datastore)@, final(datastore)@)
                &&& before_delegations(e) ==> only_clock_touched(
                    old(datastore)@,
                    final(datastore)@,
                    expiration_enforcement,
                ) && (!(e is ExpiredMetadata) ==> final(datastore)@ == old(datastore)@)
                &&& among_delegations(e) ==> final(datastore)@.contains_key(TARGETS_FILE@) && (
                first_named(snapshot.signed.meta@, TARGETS_FILE@) matches Some(listed)
                    ==> exists|stored: Map<Seq<char>, Seq<u8>>| #[trigger]
                    targets_stored(
                        old(datastore)@,
                        stored,
                        listed,
                        max_targets_size,
                        expiration_enforcement,
                    ) && keeps_files(stored, final(datastore)@))
            },
        },
        first_named(snapshot.signed.meta@, TARGETS_FILE@) is None ==> r is Err,
        first_named(snapshot.signed.meta@, TARGETS_FILE@) matches Some(listed) ==> (
        targets_request_spec(*root, listed, metadata_base_url@, max_targets_size) is Err
            ==> r is Err),
{
    let ghost before = datastore@;
    let listed = match find_named(&snapshot.signed.meta, TARGETS_FILE) {
        Some(listed) => listed,
        None => {
            return Err(
                Error::MetaMissing {
                    file: String::from_str(TARGETS_FILE),
                    role: RoleType::Timestamp,
                },
            );
        },
    };
    let request = match targets_request(
        metadata_base_url,
        root.signed.consistent_snapshot,
        listed,
        max_targets_size,
    ) {
        Ok(request) => request,
        Err(e) => {
            return Err(e);
        },
    };
    let reader = match open(transport, &request) {
        Ok(reader) => reader,
        Err(e) => {
            return Err(e);
        },
    };
    let bytes = match reader.read_all() {
        Ok(bytes) => bytes,
        Err(e) => {
            return Err(e);
        },
    };
    let mut targets = match schema.parse_targets(bytes.as_slice()) {
        Some(targets) => targets,
        None => {
            return Err(Error::ParseMetadata { role: RoleType::Targets });
        },
    };
    let stored = match datastore.get(TARGETS_FILE) {
        Some(old_bytes) => schema.parse_targets(old_bytes.as_slice()),
        None => None,
    };
    let ghost content = bytes@;
    match accept_targets(
        root,
        listed,
        &targets,
        &stored,
        bytes,
        datastore,
        expiration_enforcement,
    ) {
        Ok(()) => {},
        Err(e) => {
            proof {
                if targets_verdict(*root, *listed, targets, stored) is Ok {
                    lemma_expiry_failure_keeps_files(
                        e,
                        RoleType::Targets,
                        targets.signed.expires,
                        before,
                        datastore@,
                        expiration_enforcement,
                    );
                }
            }
            return Err(e);
        },
    }
    proof {
        lemma_file_names_differ();
        lemma_accepted_is_stored(
            RoleType::Targets,
            targets.signed.expires,
            TARGETS_FILE@,
            content,
            before,
            datastore@,
            expiration_enforcement,
        );
    }
    let ghost stored_store = datastore@;
    match targets.signed.delegations.take() {
        Some(delegations) => {
            let mut delegations = delegations;
            match load_delegations(
                transport,
                schema,
                snapshot,
                root.signed.consistent_snapshot,
                metadata_base_url,
                max_targets_size,
                &mut delegations,
                datastore,
            ) {
                Ok(()) => {},
                Err(e) => {
                    assert(keeps_files(before, datastore@));
                    assert(stored_store.contains_key(TARGETS_FILE@));
                    assert(targets_stored(
                        before,
                        stored_store,
                        *listed,
                        max_targets_size,
                        expiration_enforcement,
                    ));
                    return Err(e);
                },
            }
            targets.signed.delegations = Some(delegations);
        },
        None => {},
    }
    proof {
        let files = role_files_in(targets.signed, root.signed.consistent_snapshot);
        if root.signed.consistent_snapshot {
            lemma_versioned_role_files_stand_apart(targets.signed);
        }
        assert(wrote_only(stored_store, datastore@, files)) by {
            if targets.signed.delegations is None {
                assert forall|file: Seq<char>|
                    !files.contains(file) implies #[trigger] unchanged_at(
                    stored_store,
                    datastore@,
                    file,
                ) by {}
            }
        }
        assert forall|file: Seq<char>|
            !files.contains(file) && file != TARGETS_FILE@ && !(
            expiration_enforcement.enforced() && file
                == LATEST_KNOWN_TIME_FILE@) implies #[trigger] unchanged_at(
            before,
            datastore@,
            file,
        ) by {
            lemma_only_wrote_elsewhere(
                before,
                stored_store,
                TARGETS_FILE@,
                expiration_enforcement,
                file,
            );
            assert(unchanged_at(stored_store, datastore@, file));
        }
        assert(wrote_targets_only(before, datastore@, files, expiration_enforcement));
        assert(targets_stored(
            before,
            stored_store,
            *listed,
            max_targets_size,
            expiration_enforcement,
        ));
        assert(stored_store.contains_key(TARGETS_FILE@));
        assert(keeps_files(stored_store, datastore@));
        assert(keeps_files(before, datastore@));
        assert(datastore@.contains_key(TARGETS_FILE@));
        if targets.signed.delegations is None {
            assert(datastore@ == stored_store);
            assert(only_wrote(before, datastore@, TARGETS_FILE@, expiration_enforcement));
        }
        if !files.contains(TARGETS_FILE@) {
            assert(unchanged_at(stored_store, datastore@, TARGETS_FILE@));
            assert(datastore@[TARGETS_FILE@] == stored_store[TARGETS_FILE@]);
        }
        if !files.contains(LATEST_KNOWN_TIME_FILE@) {
            assert(unchanged_at(stored_store, datastore@, LATEST_KNOWN_TIME_FILE@));
            if expiration_enforcement.enforced() {
                let now = choose|now: UtcTime|
                    stored_store.contains_key(LATEST_KNOWN_TIME_FILE@) && #[trigger] encoded_time(
                        now.secs,
                        now.nanos,
                    ) == Some(stored_store[LATEST_KNOWN_TIME_FILE@]) && now.spec_at_or_before(
                        targets.signed.expires,
                    );
                assert(encoded_time(now.secs, now.nanos) == Some(
                    datastore@[LATEST_KNOWN_TIME_FILE@],
                ));
                assert(fresh(datastore@, targets.signed.expires));
            }
        }
        if !files.contains(LATEST_KNOWN_TIME_FILE@) && !expiration_enforcement.enforced() {
            assert(stored_store.remove(TARGETS_FILE@) == before.remove(TARGETS_FILE@));
            assert(stored_store.remove(TARGETS_FILE@).contains_key(LATEST_KNOWN_TIME_FILE@)
                == stored_store.contains_key(LATEST_KNOWN_TIME_FILE@));
            assert(before.remove(TARGETS_FILE@).contains_key(LATEST_KNOWN_TIME_FILE@)
                == before.contains_key(LATEST_KNOWN_TIME_FILE@));
            if before.contains_key(LATEST_KNOWN_TIME_FILE@) {
                assert(stored_store.remove(TARGETS_FILE@)[LATEST_KNOWN_TIME_FILE@]
                    == stored_store[LATEST_KNOWN_TIME_FILE@]);
                assert(before.remove(TARGETS_FILE@)[LATEST_KNOWN_TIME_FILE@]
                    == before[LATEST_KNOWN_TIME_FILE@]);
            }
        }
    }
    Ok(targets)
}

/// What the datastore holds after the walk from root to root, apart from
/// the clock record: what it held before, without the timestamp and the
/// snapshot where their keys were rotated.
pub open spec fn after_root_walk(before: Map<Seq<char>, Seq<u8>>, rotated: bool) -> Map<
    Seq<char>,
    Seq<u8>,
> {
    if rotated {
        before.remove(TIMESTAMP_FILE@).remove(SNAPSHOT_FILE@)
    } else {
        before
    }
}

/// The version of the trusted root in the course of the walk: that of the
/// newest root that was taken, or else that of the root that the walk
/// began with.
pub open spec fn version_reached(newer: Option<Signed<Root>>, original_version: u64) -> u64 {
    match newer {
        Some(trusted) => trusted.signed.version,
        None => original_version,
    }
}

/// The trusted root in the course of the walk: the newest root that was
/// taken, or else the root that the walk began with.
pub open spec fn root_reached(newer: Option<Signed<Root>>, original: Signed<Root>) -> Signed<
    Root,
> {
    match newer {
        Some(trusted) => trusted,
        None => original,
    }
}

/// How many versions the trusted root may still advance before the walk
/// must stop.
pub open spec fn updates_left(
    trusted_version: u64,
    original_version: u64,
    max_root_updates: u64,
) -> int {
    if trusted_version < original_version + max_root_updates {
        original_version + max_root_updates - trusted_version
    } else {
        0
    }
}

/// Whether a walk from `root` may end with `trusted` as the trusted root:
/// both are signed by a threshold of their own root keys, and `trusted` is
/// `root` itself or a later version, fewer than `max_root_updates` versions
/// past it.
pub open spec fn walk_ends_with(
    root: Signed<Root>,
    trusted: Signed<Root>,
    max_root_updates: u64,
) -> bool {
    &&& self_signed(root)
    &&& self_signed(trusted)
    &&& root.signed.version <= trusted.signed.version
    &&& trusted.signed.version == root.signed.version ==> trusted == root
    &&& may_update_root(root.signed.version, trusted.signed.version, max_root_updates)
}

/// Whether `e` is a failure that the walk from root to root can end in,
/// each with what brings it. A root that is not signed by its own keys is
/// refused before anything is fetched. Else the walk went as far as it
/// may, the address of a next root cannot be made, its download failed
/// once it was open or overran `max_root_size`, the file cannot be read as
/// a root, is not signed as the trusted root and itself ask, is older than
/// the trusted root, the last root has expired, or the clock cannot be put
/// on record.
pub open spec fn root_failure(
    e: ErrorView,
    root: Signed<Root>,
    base: Seq<char>,
    max_root_size: u64,
    max_root_updates: u64,
) -> bool {
    if !self_signed(root) {
        e == ErrorView::VerifyTrustedMetadata
    } else {
        match e {
            ErrorView::MaxUpdatesExceeded { max_root_updates: named } => named
                == max_root_updates,
            ErrorView::JoinUrl { path, url } => url == base && url_joined(base, path) is None
                && exists|version: nat|
                root.signed.version < version <= root.signed.version + max_root_updates && path
                    == #[trigger] root_file_name(version),
            ErrorView::Transport { .. } => true,
            ErrorView::MaxSizeExceeded { max_size, specifier } => max_size == max_root_size
                && specifier == MAX_ROOT_SIZE_SPECIFIER@,
            ErrorView::ParseMetadata { role } => role == RoleType::Root,
            ErrorView::VerifyMetadata { role } => role == RoleType::Root,
            ErrorView::OlderMetadata { role, current_version, new_version } => role
                == RoleType::Root && new_version < current_version,
            ErrorView::ExpiredMetadata { role } => role == RoleType::Root,
            ErrorView::SystemTimeSteppedBackward { .. } => true,
            ErrorView::DatastoreSerialize { .. } => true,
            _ => false,
        }
    }
}

/// Reads the next root of the walk from what came of opening its file. A
/// file that cannot be opened is no failure: there is no next root, and
/// the walk ends with the trusted root. A file that was opened must arrive
/// whole and must read as a root.
pub fn read_next_root<B: ByteStream, S: Schema>(
    schema: &S,
    opened: Result<BoundedReader<B>, Error>,
) -> (r: Result<Option<Signed<Root>>, Error>)
    requires
        opened matches Ok(reader) ==> reader.wf(),
    ensures
        match opened {
            Err(_) => r matches Ok(next) && next is None,
            Ok(reader) => match r {
                Ok(next) => next is Some,
                Err(e) => e@ == (ErrorView::ParseMetadata { role: RoleType::Root })
                    || download_failure(
                    e@,
                    reader.limit(),
                    reader.specifier()@,
                    reader.expected() is Some,
                ),
            },
        },
{
    match opened {
        Ok(reader) => {
            let bytes = match reader.read_all() {
                Ok(bytes) => bytes,
                Err(e) => {
                    return Err(e);
                },
            };
            match schema.parse_root(bytes.as_slice()) {
                Some(fetched) => Ok(Some(fetched)),
                None => Err(Error::ParseMetadata { role: RoleType::Root }),
            }
        },
        Err(_) => Ok(None),
    }
}

/// Brings the trusted root up to date: the first step of an update.
///
/// `root` is the root that the caller trusts. It must be signed by a
/// threshold of its own root keys. From there the walk goes from root to
/// root: as long as the trusted root is fewer than `max_root_updates`
/// versions past `root`, the file of the next version is fetched from the
/// metadata base, under the version in decimal with `.root.json`, cut off
/// at `max_root_size` bytes. If it cannot be opened, the walk ends. What
/// was fetched must be signed as the trusted root asks and as it asks
/// itself, and must not be older than the trusted root. If it has the
/// trusted root's version the walk ends, and else it becomes the trusted
/// root.
///
/// Where expirations are enforced, the root that the walk ends with must
/// not have expired. If the keys of the timestamp or of the snapshot role
/// differ between `root` and that root, the timestamp and the snapshot are
/// deleted from the datastore.
pub fn load_root<T: Transport, S: Schema>(
    transport: &T,
    schema: &S,
    root: Signed<Root>,
    datastore: &mut Datastore,
    max_root_size: u64,
    max_root_updates: u64,
    metadata_base_url: &Url,
    expiration_enforcement: ExpirationEnforcement,
) -> (r: Result<Signed<Root>, Error>)
    ensures
        match r {
            Ok(trusted) => {
                &&& self_signed(root)
                &&& self_signed(trusted)
                &&& root.signed.version <= trusted.signed.version
                &&& trusted.signed.version == root.signed.version ==> trusted == root
                &&& may_update_root(
                    root.signed.version,
                    trusted.signed.version,
                    max_root_updates,
                )
                &&& only_clock_touched(
                    after_root_walk(old(datastore)@, keys_changed(root.signed, trusted.signed)),
                    final(datastore)@,
                    expiration_enforcement,
                )
                &&& keys_changed(root.signed, trusted.signed) ==> !final(datastore)@.contains_key(
                    TIMESTAMP_FILE@,
                ) && !final(datastore)@.contains_key(SNAPSHOT_FILE@)
                &&& expiration_enforcement.enforced() ==> fresh(
                    final(datastore)@,
                    trusted.signed.expires,
                )
            },
            Err(e) => {
                &&& root_failure(e@, root, metadata_base_url@, max_root_size, max_root_updates)
                &&& only_clock_touched(old(datastore)@, final(datastore)@, expiration_enforcement)
                &&& clock_failure(e) ==> expiration_enforcement.enforced()
                &&& !(e is ExpiredMetadata) ==> final(datastore)@ == old(datastore)@
                &&& e is ExpiredMetadata ==> exists|trusted: Signed<Root>| #[trigger]
                    walk_ends_with(root, trusted, max_root_updates) && recorded_too_late(
                        old(datastore)@,
                        final(datastore)@,
                        trusted.signed.expires,
                    )
                &&& self_signed(root) && max_root_updates == 0 ==> e@
                    == (ErrorView::MaxUpdatesExceeded { max_root_updates })
                &&& self_signed(root) && max_root_updates > 0 && url_joined(
                    metadata_base_url@,
                    root_file_name((root.signed.version + 1) as nat),
                ) is None ==> e@ == (ErrorView::JoinUrl {
                    path: root_file_name((root.signed.version + 1) as nat),
                    url: metadata_base_url@,
                })
            },
        },
        !self_signed(root) || max_root_updates == 0 || url_joined(
            metadata_base_url@,
            root_file_name((root.signed.version + 1) as nat),
        ) is None ==> r is Err,
{
    let ghost before = datastore@;
    match crate::checks::check_trusted_root(&root) {
        Ok(()) => {},
        Err(e) => {
            return Err(e);
        },
    }
    let original_version = root.signed.version;
    let mut newer: Option<Signed<Root>> = None;
    loop
        invariant
            datastore@ == before,
            original_version == root.signed.version,
            self_signed(root),
            newer matches Some(trusted) ==> self_signed(trusted) && trusted.signed.version
                > root.signed.version,
            newer is Some ==> max_root_updates > 0 && url_joined(
                metadata_base_url@,
                root_file_name((root.signed.version + 1) as nat),
            ) is Some,
        ensures
            may_update_root(
                original_version,
                version_reached(newer, original_version),
                max_root_updates,
            ),
            max_root_updates > 0,
            url_joined(
                metadata_base_url@,
                root_file_name((root.signed.version + 1) as nat),
            ) is Some,
        decreases
                updates_left(
                    version_reached(newer, original_version),
                    original_version,
                    max_root_updates,
                ),
    {
        let trusted: &Signed<Root> = match &newer {
            Some(trusted) => trusted,
            None => &root,
        };
        match check_root_updates(original_version, trusted.signed.version, max_root_updates) {
            Ok(()) => {},
            Err(e) => {
                return Err(e);
            },
        }
        let request = match root_request(
            metadata_base_url,
            trusted.signed.version as u128 + 1,
            max_root_size,
        ) {
            Ok(request) => request,
            Err(e) => {
                return Err(e);
            },
        };
        let fetched = match read_next_root(schema, open(transport, &request)) {
            Ok(fetched) => fetched,
            Err(e) => {
                return Err(e);
            },
        };
        match check_next_root(trusted, &fetched) {
            Ok(true) => {
                newer = fetched;
            },
            Ok(false) => {
                break ;
            },
            Err(e) => {
                return Err(e);
            },
        }
    }
    let rotated = match &newer {
        Some(trusted) => check_keys_changed(&root.signed, &trusted.signed),
        None => false,
    };
    let checked = match &newer {
        Some(trusted) => check_expired_if_enforced(
            datastore,
            &trusted.signed,
            expiration_enforcement,
        ),
        None => check_expired_if_enforced(datastore, &root.signed, expiration_enforcement),
    };
    match checked {
        Ok(()) => {},
        Err(e) => {
            proof {
                assert(walk_ends_with(root, root_reached(newer, root), max_root_updates));
            }
            return Err(e);
        },
    }
    let ghost checked_store = datastore@;
    if rotated {
        datastore.remove(TIMESTAMP_FILE);
        datastore.remove(SNAPSHOT_FILE);
    }
    let trusted = match newer {
        Some(trusted) => trusted,
        None => root,
    };
    proof {
        lemma_file_names_differ();
        if rotated {
            if expiration_enforcement.enforced() {
                let now = choose|now: UtcTime|
                    checked_store.contains_key(LATEST_KNOWN_TIME_FILE@) && #[trigger] encoded_time(
                        now.secs,
                        now.nanos,
                    ) == Some(checked_store[LATEST_KNOWN_TIME_FILE@]) && now.spec_at_or_before(
                        trusted.signed.expires,
                    );
                assert(encoded_time(now.secs, now.nanos) == Some(
                    datastore@[LATEST_KNOWN_TIME_FILE@],
                ));
                let clock = LATEST_KNOWN_TIME_FILE@;
                assert(datastore@.remove(clock) =~= checked_store.remove(clock).remove(
                    TIMESTAMP_FILE@,
                ).remove(SNAPSHOT_FILE@));
                assert(before.remove(clock).remove(TIMESTAMP_FILE@).remove(SNAPSHOT_FILE@)
                    =~= before.remove(TIMESTAMP_FILE@).remove(SNAPSHOT_FILE@).remove(clock));
            } else {
                assert(datastore@ =~= before.remove(TIMESTAMP_FILE@).remove(SNAPSHOT_FILE@));
            }
        }
    }
    Ok(trusted)
}

} // verus!
