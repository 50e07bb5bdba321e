//! The decisions of the update workflow, each as a function of what was
//! fetched and what is trusted.

use crate::datastore::TARGETS_FILE;
use crate::error::{outcome, Error, ErrorView};
use crate::schema::{
    find_named, first_named, keys_rotated, Delegations, RoleType, Root, Signed, Snapshot,
    SnapshotMeta, Targets, Timestamp, TimestampMeta,
};
use crate::time::UtcTime;
use vstd::prelude::*;
use vstd::string::*;

verus! {

/// Whether a root signs metadata as it asks of `role`.
pub open spec fn signed_by<T>(root: Signed<Root>, role: RoleType, metadata: Signed<T>) -> bool {
    root.signed.verifies(role, metadata.signatures@, metadata.message@)
}

/// Whether a root is signed by a threshold of its own root keys.
pub open spec fn self_signed(root: Signed<Root>) -> bool {
    signed_by(root, RoleType::Root, root)
}

/// The trusted root that the caller supplies must be signed by a threshold
/// of its own root keys.
pub fn check_trusted_root(root: &Signed<Root>) -> (r: Result<(), Error>)
    ensures
        outcome(r) == if self_signed(*root) {
            Ok::<(), ErrorView>(())
        } else {
            Err(ErrorView::VerifyTrustedMetadata)
        },
{
    if root.signed.verify_role(root) {
        Ok(())
    } else {
        Err(Error::VerifyTrustedMetadata)
    }
}

/// Whether the walk from root to root may fetch one more root: only while
/// the trusted root is fewer than `max_root_updates` versions past the root
/// that the walk began with.
pub open spec fn may_update_root(
    original_version: u64,
    trusted_version: u64,
    max_root_updates: u64,
) -> bool {
    trusted_version < original_version + max_root_updates
}

/// Stops the walk from root to root once it has gone `max_root_updates`
/// versions past the root that it began with.
pub fn check_root_updates(original_version: u64, trusted_version: u64, max_root_updates: u64) -> (r:
    Result<(), Error>)
    ensures
        outcome(r) == if may_update_root(original_version, trusted_version, max_root_updates) {
            Ok::<(), ErrorView>(())
        } else {
            Err(ErrorView::MaxUpdatesExceeded { max_root_updates })
        },
{
    if (trusted_version as u128) < original_version as u128 + max_root_updates as u128 {
        Ok(())
    } else {
        Err(Error::MaxUpdatesExceeded { max_root_updates })
    }
}

/// What becomes of a root that was fetched. It must be signed as the
/// trusted root asks and as it asks itself, and must not be older than the
/// trusted root. `Ok(true)`: it is newer and becomes the trusted root.
/// `Ok(false)`: it has the trusted root's version, and the walk ends.
pub open spec fn root_update_verdict(trusted: Signed<Root>, fetched: Signed<Root>) -> Result<
    bool,
    ErrorView,
> {
    if !signed_by(trusted, RoleType::Root, fetched) || !self_signed(fetched) {
        Err(ErrorView::VerifyMetadata { role: RoleType::Root })
    } else if fetched.signed.version < trusted.signed.version {
        Err(
            ErrorView::OlderMetadata {
                role: RoleType::Root,
                current_version: trusted.signed.version,
                new_version: fetched.signed.version,
            },
        )
    } else {
        Ok(fetched.signed.version > trusted.signed.version)
    }
}

/// Decides what becomes of a root that was fetched.
pub fn check_root_update(trusted: &Signed<Root>, fetched: &Signed<Root>) -> (r: Result<
    bool,
    Error,
>)
    ensures
        outcome(r) == root_update_verdict(*trusted, *fetched),
{
    if !trusted.signed.verify_role(fetched) {
        return Err(Error::VerifyMetadata { role: RoleType::Root });
    }
    if !fetched.signed.verify_role(fetched) {
        return Err(Error::VerifyMetadata { role: RoleType::Root });
    }
    if fetched.signed.version < trusted.signed.version {
        return Err(
            Error::OlderMetadata {
                role: RoleType::Root,
                current_version: trusted.signed.version,
                new_version: fetched.signed.version,
            },
        );
    }
    Ok(fetched.signed.version > trusted.signed.version)
}

/// What becomes of the walk from root to root once the next root was asked
/// for. Where the repository has no such file, the walk ends with the
/// trusted root. Where it has one, `root_update_verdict` decides.
pub open spec fn next_root_verdict(trusted: Signed<Root>, fetched: Option<Signed<Root>>) -> Result<
    bool,
    ErrorView,
> {
    match fetched {
        Some(root) => root_update_verdict(trusted, root),
        None => Ok(false),
    }
}

/// Decides what becomes of the walk from root to root once the next root
/// was asked for. `Ok(true)`: what was fetched becomes the trusted root.
/// `Ok(false)`: the walk ends with the trusted root.
pub fn check_next_root(trusted: &Signed<Root>, fetched: &Option<Signed<Root>>) -> (r: Result<
    bool,
    Error,
>)
    ensures
        outcome(r) == next_root_verdict(*trusted, *fetched),
{
    match fetched {
        Some(root) => check_root_update(trusted, root),
        None => Ok(false),
    }
}

/// Whether the keys of the timestamp role or of the snapshot role differ
/// between two roots.
pub open spec fn keys_changed(original: Root, current: Root) -> bool {
    ||| original.keys_spec(RoleType::Timestamp) != current.keys_spec(RoleType::Timestamp)
    ||| original.keys_spec(RoleType::Snapshot) != current.keys_spec(RoleType::Snapshot)
}

/// Whether the keys of the timestamp role or of the snapshot role were
/// rotated between two roots. After a rotation, what the client trusted of
/// timestamp and snapshot may come from someone who held the old keys.
pub fn check_keys_changed(original: &Root, current: &Root) -> (r: bool)
    ensures
        r == keys_changed(*original, *current),
{
    keys_rotated(original, current, RoleType::Timestamp) || keys_rotated(
        original,
        current,
        RoleType::Snapshot,
    )
}

/// Whether a timestamp that was fetched is accepted. It must be signed as
/// the root asks. If the datastore holds a timestamp that is signed as the
/// root asks, the new one must not be older.
pub open spec fn timestamp_verdict(
    root: Signed<Root>,
    fetched: Signed<Timestamp>,
    stored: Option<Signed<Timestamp>>,
) -> Result<(), ErrorView> {
    if !signed_by(root, RoleType::Timestamp, fetched) {
        Err(ErrorView::VerifyMetadata { role: RoleType::Timestamp })
    } else if stored matches Some(old) && signed_by(root, RoleType::Timestamp, old)
        && old.signed.version > fetched.signed.version {
        Err(
            ErrorView::OlderMetadata {
                role: RoleType::Timestamp,
                current_version: stored.unwrap().signed.version,
                new_version: fetched.signed.version,
            },
        )
    } else {
        Ok(())
    }
}

/// Decides whether a timestamp that was fetched is accepted.
pub fn check_timestamp(
    root: &Signed<Root>,
    fetched: &Signed<Timestamp>,
    stored: &Option<Signed<Timestamp>>,
) -> (r: Result<(), Error>)
    ensures
        outcome(r) == timestamp_verdict(*root, *fetched, *stored),
{
    if !root.signed.verify_role(fetched) {
        return Err(Error::VerifyMetadata { role: RoleType::Timestamp });
    }
    match stored {
        Some(old) => {
            if root.signed.verify_role(old) && old.signed.version > fetched.signed.version {
                return Err(
                    Error::OlderMetadata {
                        role: RoleType::Timestamp,
                        current_version: old.signed.version,
                        new_version: fetched.signed.version,
                    },
                );
            }
        },
        None => {},
    }
    Ok(())
}

/// The first name of the old list that the new list lacks.
pub open spec fn first_missing(
    old_meta: Seq<(String, SnapshotMeta)>,
    new_meta: Seq<(String, SnapshotMeta)>,
) -> Option<Seq<char>>
    decreases old_meta.len(),
{
    if old_meta.len() == 0 {
        None
    } else if first_named(new_meta, old_meta[0].0@) is None {
        Some(old_meta[0].0@)
    } else {
        first_missing(old_meta.drop_first(), new_meta)
    }
}

/// Whether a new snapshot may follow an old one. It must not be older.
/// Where the old one describes `targets.json`, the new one must describe
/// it too, in a version that is not older. Every file that the old one
/// lists, the new one must list too.
pub open spec fn snapshot_rollback_verdict(old: Snapshot, new: Snapshot) -> Result<(), ErrorView> {
    if old.version > new.version {
        Err(
            ErrorView::OlderMetadata {
                role: RoleType::Snapshot,
                current_version: old.version,
                new_version: new.version,
            },
        )
    } else if first_named(old.meta@, TARGETS_FILE@) is Some && first_named(
        new.meta@,
        TARGETS_FILE@,
    ) is None {
        Err(ErrorView::MetaMissing { file: TARGETS_FILE@, role: RoleType::Snapshot })
    } else if first_named(old.meta@, TARGETS_FILE@) matches Some(old_targets) && first_named(
        new.meta@,
        TARGETS_FILE@,
    ) matches Some(new_targets) && old_targets.version > new_targets.version {
        Err(
            ErrorView::OlderMetadata {
                role: RoleType::Targets,
                current_version: first_named(old.meta@, TARGETS_FILE@).unwrap().version,
                new_version: first_named(new.meta@, TARGETS_FILE@).unwrap().version,
            },
        )
    } else {
        match first_missing(old.meta@, new.meta@) {
            Some(file) => Err(ErrorView::MetaMissing { file, role: RoleType::Snapshot }),
            None => Ok(()),
        }
    }
}

/// Whether a snapshot that was fetched is accepted. It must have the
/// version that the timestamp lists and be signed as the root asks. If the
/// datastore holds a snapshot that is signed as the root asks, the new one
/// must be fit to follow it.
pub open spec fn snapshot_verdict(
    root: Signed<Root>,
    listed: TimestampMeta,
    fetched: Signed<Snapshot>,
    stored: Option<Signed<Snapshot>>,
) -> Result<(), ErrorView> {
    if fetched.signed.version != listed.version {
        Err(
            ErrorView::VersionMismatch {
                role: RoleType::Snapshot,
                fetched: fetched.signed.version,
                expected: listed.version,
            },
        )
    } else if !signed_by(root, RoleType::Snapshot, fetched) {
        Err(ErrorView::VerifyMetadata { role: RoleType::Snapshot })
    } else if stored matches Some(old) && signed_by(root, RoleType::Snapshot, old) {
        snapshot_rollback_verdict(stored.unwrap().signed, fetched.signed)
    } else {
        Ok(())
    }
}

/// Finds the first name of the old list that the new list lacks.
fn find_missing<'a>(
    old_meta: &'a Vec<(String, SnapshotMeta)>,
    new_meta: &Vec<(String, SnapshotMeta)>,
) -> (r: Option<&'a String>)
    ensures
        match r {
            Some(name) => first_missing(old_meta@, new_meta@) == Some(name@),
            None => first_missing(old_meta@, new_meta@) is None,
        },
{
    let mut i: usize = 0;
    assert(old_meta@.skip(0) =~= old_meta@);
    while i < old_meta.len()
        invariant
            i <= old_meta.len(),
            first_missing(old_meta@, new_meta@) == first_missing(
                old_meta@.skip(i as int),
                new_meta@,
            ),
        decreases old_meta.len() - i,
    {
        assert(old_meta@.skip(i as int).drop_first() =~= old_meta@.skip(i + 1));
        if find_named(new_meta, old_meta[i].0.as_str()).is_none() {
            return Some(&old_meta[i].0);
        }
        i = i + 1;
    }
    None
}

/// Decides whether a new snapshot may follow an old one.
pub fn check_snapshot_rollback(old: &Snapshot, new: &Snapshot) -> (r: Result<(), Error>)
    ensures
        outcome(r) == snapshot_rollback_verdict(*old, *new),
{
    if old.version > new.version {
        return Err(
            Error::OlderMetadata {
                role: RoleType::Snapshot,
                current_version: old.version,
                new_version: new.version,
            },
        );
    }
    match find_named(&old.meta, TARGETS_FILE) {
        Some(old_targets) => match find_named(&new.meta, TARGETS_FILE) {
            Some(new_targets) => {
                if old_targets.version > new_targets.version {
                    return Err(
                        Error::OlderMetadata {
                            role: RoleType::Targets,
                            current_version: old_targets.version,
                            new_version: new_targets.version,
                        },
                    );
                }
            },
            None => {
                return Err(
                    Error::MetaMissing {
                        file: String::from_str(TARGETS_FILE),
                        role: RoleType::Snapshot,
                    },
                );
            },
        },
        None => {},
    }
    match find_missing(&old.meta, &new.meta) {
        Some(file) => Err(Error::MetaMissing { file: file.clone(), role: RoleType::Snapshot }),
        None => Ok(()),
    }
}

/// Decides whether a snapshot that was fetched is accepted.
pub fn check_snapshot(
    root: &Signed<Root>,
    listed: &TimestampMeta,
    fetched: &Signed<Snapshot>,
    stored: &Option<Signed<Snapshot>>,
) -> (r: Result<(), Error>)
    ensures
        outcome(r) == snapshot_verdict(*root, *listed, *fetched, *stored),
{
    if fetched.signed.version != listed.version {
        return Err(
            Error::VersionMismatch {
                role: RoleType::Snapshot,
                fetched: fetched.signed.version,
                expected: listed.version,
            },
        );
    }
    if !root.signed.verify_role(fetched) {
        return Err(Error::VerifyMetadata { role: RoleType::Snapshot });
    }
    match stored {
        Some(old) => {
            if root.signed.verify_role(old) {
                check_snapshot_rollback(&old.signed, &fetched.signed)
            } else {
                Ok(())
            }
        },
        None => Ok(()),
    }
}

/// Whether top-level targets metadata that was fetched is accepted. It
/// must have the version that the snapshot lists and be signed as the root
/// asks. If the datastore holds targets metadata that is signed as the
/// root asks, the new one must not be older.
pub open spec fn targets_verdict(
    root: Signed<Root>,
    listed: SnapshotMeta,
    fetched: Signed<Targets>,
    stored: Option<Signed<Targets>>,
) -> Result<(), ErrorView> {
    if fetched.signed.version != listed.version {
        Err(
            ErrorView::VersionMismatch {
                role: RoleType::Targets,
                fetched: fetched.signed.version,
                expected: listed.version,
            },
        )
    } else if !signed_by(root, RoleType::Targets, fetched) {
        Err(ErrorView::VerifyMetadata { role: RoleType::Targets })
    } else if stored matches Some(old) && signed_by(root, RoleType::Targets, old)
        && old.signed.version > fetched.signed.version {
        Err(
            ErrorView::OlderMetadata {
                role: RoleType::Targets,
                current_version: stored.unwrap().signed.version,
                new_version: fetched.signed.version,
            },
        )
    } else {
        Ok(())
    }
}

/// Decides whether top-level targets metadata that was fetched is
/// accepted.
pub fn check_targets(
    root: &Signed<Root>,
    listed: &SnapshotMeta,
    fetched: &Signed<Targets>,
    stored: &Option<Signed<Targets>>,
) -> (r: Result<(), Error>)
    ensures
        outcome(r) == targets_verdict(*root, *listed, *fetched, *stored),
{
    if fetched.signed.version != listed.version {
        return Err(
            Error::VersionMismatch {
                role: RoleType::Targets,
                fetched: fetched.signed.version,
                expected: listed.version,
            },
        );
    }
    if !root.signed.verify_role(fetched) {
        return Err(Error::VerifyMetadata { role: RoleType::Targets });
    }
    match stored {
        Some(old) => {
            if root.signed.verify_role(old) && old.signed.version > fetched.signed.version {
                return Err(
                    Error::OlderMetadata {
                        role: RoleType::Targets,
                        current_version: old.signed.version,
                        new_version: fetched.signed.version,
                    },
                );
            }
        },
        None => {},
    }
    Ok(())
}

/// Whether the targets metadata of a delegated role is accepted. It must
/// be signed as the delegating role asks of the role of that name, and
/// have the version that the snapshot lists.
pub open spec fn delegated_role_verdict(
    parent: Delegations,
    name: Seq<char>,
    listed: SnapshotMeta,
    fetched: Signed<Targets>,
) -> Result<(), ErrorView> {
    if !parent.verifies(name, fetched.signatures@, fetched.message@) {
        Err(ErrorView::VerifyMetadata { role: RoleType::Targets })
    } else if fetched.signed.version != listed.version {
        Err(
            ErrorView::VersionMismatch {
                role: RoleType::Targets,
                fetched: fetched.signed.version,
                expected: listed.version,
            },
        )
    } else {
        Ok(())
    }
}

/// Decides whether the targets metadata of a delegated role is accepted.
pub fn check_delegated_role(
    parent: &Delegations,
    name: &str,
    listed: &SnapshotMeta,
    fetched: &Signed<Targets>,
) -> (r: Result<(), Error>)
    ensures
        outcome(r) == delegated_role_verdict(*parent, name@, *listed, *fetched),
{
    if !parent.verify_role(fetched, name) {
        return Err(Error::VerifyMetadata { role: RoleType::Targets });
    }
    if fetched.signed.version != listed.version {
        return Err(
            Error::VersionMismatch {
                role: RoleType::Targets,
                fetched: fetched.signed.version,
                expected: listed.version,
            },
        );
    }
    Ok(())
}

/// Whether `role` is the role whose metadata expires first, at `time`:
/// `time` is the instant at which the metadata of `role` expires, no
/// metadata expires before it, and that of the roles which come before
/// `role` in the order root, timestamp, snapshot, targets expires later.
pub open spec fn is_earliest(
    time: UtcTime,
    role: RoleType,
    root: UtcTime,
    timestamp: UtcTime,
    snapshot: UtcTime,
    targets: UtcTime,
) -> bool {
    &&& time.spec_at_or_before(root)
    &&& time.spec_at_or_before(timestamp)
    &&& time.spec_at_or_before(snapshot)
    &&& time.spec_at_or_before(targets)
    &&& match role {
        RoleType::Root => time == root,
        RoleType::Timestamp => time == timestamp && time.spec_before(root),
        RoleType::Snapshot => time == snapshot && time.spec_before(root) && time.spec_before(
            timestamp,
        ),
        RoleType::Targets => time == targets && time.spec_before(root) && time.spec_before(
            timestamp,
        ) && time.spec_before(snapshot),
    }
}

/// Finds the instant at which the first of the four top-level roles
/// expires, and that role. Among roles that expire at the same instant,
/// the first in the order root, timestamp, snapshot, targets is named.
pub fn earliest_expiration(
    root: UtcTime,
    timestamp: UtcTime,
    snapshot: UtcTime,
    targets: UtcTime,
) -> (r: (UtcTime, RoleType))
    ensures
        is_earliest(r.0, r.1, root, timestamp, snapshot, targets),
{
    let mut earliest = root;
    let mut role = RoleType::Root;
    if timestamp.before(earliest) {
        earliest = timestamp;
        role = RoleType::Timestamp;
    }
    if snapshot.before(earliest) {
        earliest = snapshot;
        role = RoleType::Snapshot;
    }
    if targets.before(earliest) {
        earliest = targets;
        role = RoleType::Targets;
    }
    (earliest, role)
}

/// There is one earliest expiration and one role that is named for it.
pub proof fn lemma_earliest_is_unique(
    time: UtcTime,
    role: RoleType,
    other_time: UtcTime,
    other_role: RoleType,
    root: UtcTime,
    timestamp: UtcTime,
    snapshot: UtcTime,
    targets: UtcTime,
)
    requires
        is_earliest(time, role, root, timestamp, snapshot, targets),
        is_earliest(other_time, other_role, root, timestamp, snapshot, targets),
    ensures
        time == other_time,
        role == other_role,
{
}

/// At an instant, some top-level role has expired if and only if the
/// earliest expiration is not ahead. The strict check against the earliest
/// expiration thus fails exactly when one of the four roles has expired.
pub proof fn lemma_expired_iff_any_role_expired(
    now: UtcTime,
    time: UtcTime,
    role: RoleType,
    root: UtcTime,
    timestamp: UtcTime,
    snapshot: UtcTime,
    targets: UtcTime,
)
    requires
        is_earliest(time, role, root, timestamp, snapshot, targets),
    ensures
        !now.spec_before(time) <==> (!now.spec_before(root) || !now.spec_before(timestamp)
            || !now.spec_before(snapshot) || !now.spec_before(targets)),
{
}

/// A timestamp that is accepted is not older than the stored timestamp,
/// where that one is signed as the root asks. Versions that one datastore
/// sees under one root never decrease.
pub proof fn lemma_timestamp_version_never_decreases(
    root: Signed<Root>,
    fetched: Signed<Timestamp>,
    stored: Signed<Timestamp>,
)
    requires
        timestamp_verdict(root, fetched, Some(stored)) is Ok,
        signed_by(root, RoleType::Timestamp, stored),
    ensures
        stored.signed.version <= fetched.signed.version,
{
}

/// A snapshot that is accepted is not older than the stored snapshot,
/// where that one is signed as the root asks, and lists no older version
/// of `targets.json` than the stored snapshot does.
pub proof fn lemma_snapshot_version_never_decreases(
    root: Signed<Root>,
    listed: TimestampMeta,
    fetched: Signed<Snapshot>,
    stored: Signed<Snapshot>,
)
    requires
        snapshot_verdict(root, listed, fetched, Some(stored)) is Ok,
        signed_by(root, RoleType::Snapshot, stored),
    ensures
        stored.signed.version <= fetched.signed.version,
        first_named(stored.signed.meta@, TARGETS_FILE@) matches Some(old_targets) ==> (first_named(
            fetched.signed.meta@,
            TARGETS_FILE@,
        ) matches Some(new_targets) && old_targets.version <= new_targets.version),
{
}

/// Targets metadata that is accepted is not older than the stored targets
/// metadata, where that one is signed as the root asks.
pub proof fn lemma_targets_version_never_decreases(
    root: Signed<Root>,
    listed: SnapshotMeta,
    fetched: Signed<Targets>,
    stored: Signed<Targets>,
)
    requires
        targets_verdict(root, listed, fetched, Some(stored)) is Ok,
        signed_by(root, RoleType::Targets, stored),
    ensures
        stored.signed.version <= fetched.signed.version,
{
}

/// A root that is accepted as the next trusted root has a higher version,
/// and is signed both as the trusted root asks and as it asks itself.
pub proof fn lemma_root_update_keeps_trust(trusted: Signed<Root>, fetched: Signed<Root>)
    requires
        root_update_verdict(trusted, fetched) == Ok::<bool, ErrorView>(true),
    ensures
        fetched.signed.version > trusted.signed.version,
        signed_by(trusted, RoleType::Root, fetched),
        self_signed(fetched),
{
}

/// The walk from root to root ends, without failure, at the first root
/// that the repository does not have.
pub proof fn lemma_missing_root_ends_walk(trusted: Signed<Root>)
    ensures
        next_root_verdict(trusted, None) == Ok::<bool, ErrorView>(false),
{
}

/// A root that was fetched and has the trusted root's version ends the
/// walk: it is neither refused nor taken.
pub proof fn lemma_same_version_ends_walk(trusted: Signed<Root>, fetched: Signed<Root>)
    requires
        signed_by(trusted, RoleType::Root, fetched),
        self_signed(fetched),
        fetched.signed.version == trusted.signed.version,
    ensures
        root_update_verdict(trusted, fetched) == Ok::<bool, ErrorView>(false),
{
}

} // verus!
