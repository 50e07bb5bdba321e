use ring::signature::{Ed25519KeyPair, KeyPair};
use tough::checks::{
    check_delegated_role, check_keys_changed, check_next_root, check_root_update,
    check_root_updates, check_snapshot, check_snapshot_rollback, check_targets, check_timestamp,
    check_trusted_root, earliest_expiration,
};
use tough::request::targets_size_limit;
use tough::schema::{
    DelegatedRole, Delegations, RoleKeys, Root, Signed, Snapshot, SnapshotMeta, Targets,
    Timestamp, TimestampMeta,
};
use tough::{Error, Key, KeyEntry, RoleType, Signature, SignatureScheme, UtcTime};

struct Signer {
    keyid: Vec<u8>,
    pair: Ed25519KeyPair,
}

fn signer(seed: u8) -> Signer {
    Signer {
        keyid: vec![seed; 3],
        pair: Ed25519KeyPair::from_seed_unchecked(&[seed; 32]).unwrap(),
    }
}

fn entry(signer: &Signer) -> KeyEntry {
    KeyEntry {
        keyid: signer.keyid.clone(),
        key: Key {
            scheme: SignatureScheme::Ed25519,
            public: signer.pair.public_key().as_ref().to_vec(),
        },
    }
}

fn envelope<T>(signed: T, message: &[u8], signers: &[&Signer]) -> Signed<T> {
    Signed {
        signed,
        signatures: signers
            .iter()
            .map(|s| Signature {
                keyid: s.keyid.clone(),
                sig: s.pair.sign(message).as_ref().to_vec(),
            })
            .collect(),
        message: message.to_vec(),
    }
}

fn only(signer: &Signer) -> RoleKeys {
    RoleKeys {
        keyids: vec![signer.keyid.clone()],
        threshold: 1,
    }
}

const ROOT: u8 = 1;
const SNAPSHOT: u8 = 2;
const TARGETS: u8 = 3;
const TIMESTAMP: u8 = 4;
const OTHER: u8 = 9;

fn root_with(version: u64, root_key: u8, timestamp_key: u8, snapshot_key: u8) -> Root {
    let targets_key = signer(TARGETS);
    let (r, t, s) = (signer(root_key), signer(timestamp_key), signer(snapshot_key));
    Root {
        version,
        expires: UtcTime::new(1000, 0),
        consistent_snapshot: false,
        keys: vec![entry(&r), entry(&s), entry(&targets_key), entry(&t)],
        root: only(&r),
        snapshot: only(&s),
        targets: only(&targets_key),
        timestamp: only(&t),
    }
}

fn root(version: u64) -> Signed<Root> {
    let message = format!("root {}", version);
    envelope(
        root_with(version, ROOT, TIMESTAMP, SNAPSHOT),
        message.as_bytes(),
        &[&signer(ROOT)],
    )
}

fn timestamp(version: u64, key: u8) -> Signed<Timestamp> {
    let message = format!("timestamp {}", version);
    envelope(
        Timestamp {
            version,
            expires: UtcTime::new(1000, 0),
            meta: Vec::new(),
        },
        message.as_bytes(),
        &[&signer(key)],
    )
}

fn meta(version: u64) -> SnapshotMeta {
    SnapshotMeta {
        length: None,
        sha256: None,
        version,
    }
}

fn snapshot(version: u64, key: u8, files: &[(&str, u64)]) -> Signed<Snapshot> {
    let message = format!("snapshot {} {:?}", version, files);
    envelope(
        Snapshot {
            version,
            expires: UtcTime::new(1000, 0),
            meta: files
                .iter()
                .map(|(name, version)| (name.to_string(), meta(*version)))
                .collect(),
        },
        message.as_bytes(),
        &[&signer(key)],
    )
}

fn targets(version: u64, key: u8) -> Signed<Targets> {
    let message = format!("targets {}", version);
    envelope(
        Targets {
            version,
            expires: UtcTime::new(1000, 0),
            targets: Vec::new(),
            delegations: None,
        },
        message.as_bytes(),
        &[&signer(key)],
    )
}

#[test]
fn trusted_root_is_checked_against_itself() {
    assert_eq!(check_trusted_root(&root(1)), Ok(()));
    let unsigned = envelope(root_with(1, ROOT, TIMESTAMP, SNAPSHOT), b"root", &[]);
    assert_eq!(check_trusted_root(&unsigned), Err(Error::VerifyTrustedMetadata));
    let by_other = envelope(root_with(1, ROOT, TIMESTAMP, SNAPSHOT), b"root", &[&signer(OTHER)]);
    assert_eq!(check_trusted_root(&by_other), Err(Error::VerifyTrustedMetadata));
}

#[test]
fn root_updates_are_counted_from_the_first_root() {
    assert_eq!(check_root_updates(1, 1, 1024), Ok(()));
    assert_eq!(check_root_updates(1, 1024, 1024), Ok(()));
    assert_eq!(
        check_root_updates(1, 1025, 1024),
        Err(Error::MaxUpdatesExceeded { max_root_updates: 1024 })
    );
    assert_eq!(
        check_root_updates(7, 7, 0),
        Err(Error::MaxUpdatesExceeded { max_root_updates: 0 })
    );
    assert_eq!(check_root_updates(7, 9, 3), Ok(()));
    assert_eq!(
        check_root_updates(7, 10, 3),
        Err(Error::MaxUpdatesExceeded { max_root_updates: 3 })
    );
    // The sum is not cut off at 64 bits.
    assert_eq!(check_root_updates(u64::MAX, u64::MAX, 1), Ok(()));
    assert_eq!(check_root_updates(u64::MAX - 1, u64::MAX, u64::MAX), Ok(()));
}

#[test]
fn root_update_is_taken_refused_or_ends_the_walk() {
    assert_eq!(check_root_update(&root(1), &root(2)), Ok(true));
    assert_eq!(check_root_update(&root(1), &root(9)), Ok(true));
    assert_eq!(check_root_update(&root(2), &root(2)), Ok(false));
    assert_eq!(
        check_root_update(&root(3), &root(2)),
        Err(Error::OlderMetadata {
            role: RoleType::Root,
            current_version: 3,
            new_version: 2
        })
    );
    // The signatures are looked at before the version.
    let forged = envelope(root_with(2, ROOT, TIMESTAMP, SNAPSHOT), b"root", &[&signer(OTHER)]);
    assert_eq!(
        check_root_update(&root(3), &forged),
        Err(Error::VerifyMetadata { role: RoleType::Root })
    );
    // A new root under a new root key must be signed by the old key too.
    let rotated = root_with(2, OTHER, TIMESTAMP, SNAPSHOT);
    let by_new = envelope(root_with(2, OTHER, TIMESTAMP, SNAPSHOT), b"r", &[&signer(OTHER)]);
    let by_old = envelope(root_with(2, OTHER, TIMESTAMP, SNAPSHOT), b"r", &[&signer(ROOT)]);
    let by_both = envelope(rotated, b"r", &[&signer(ROOT), &signer(OTHER)]);
    let failure = Err(Error::VerifyMetadata { role: RoleType::Root });
    assert_eq!(check_root_update(&root(1), &by_new), failure);
    assert_eq!(check_root_update(&root(1), &by_old), failure);
    assert_eq!(check_root_update(&root(1), &by_both), Ok(true));
}

#[test]
fn walk_ends_where_the_next_root_is_missing() {
    assert_eq!(check_next_root(&root(1), &None), Ok(false));
    assert_eq!(check_next_root(&root(1), &Some(root(2))), Ok(true));
    assert_eq!(check_next_root(&root(2), &Some(root(2))), Ok(false));
    assert_eq!(
        check_next_root(&root(2), &Some(root(1))),
        Err(Error::OlderMetadata {
            role: RoleType::Root,
            current_version: 2,
            new_version: 1
        })
    );
}

#[test]
fn rotation_of_timestamp_or_snapshot_keys_is_seen() {
    let plain = root_with(1, ROOT, TIMESTAMP, SNAPSHOT);
    assert!(!check_keys_changed(&plain, &root_with(2, ROOT, TIMESTAMP, SNAPSHOT)));
    assert!(!check_keys_changed(&plain, &root_with(2, OTHER, TIMESTAMP, SNAPSHOT)));
    assert!(check_keys_changed(&plain, &root_with(2, ROOT, OTHER, SNAPSHOT)));
    assert!(check_keys_changed(&plain, &root_with(2, ROOT, TIMESTAMP, OTHER)));
    assert!(check_keys_changed(&plain, &root_with(2, ROOT, OTHER, OTHER)));
    // A second key for the role is a change, and so is another order.
    let mut more = root_with(2, ROOT, TIMESTAMP, SNAPSHOT);
    more.timestamp.keyids.push(signer(SNAPSHOT).keyid);
    assert!(check_keys_changed(&plain, &more));
    let mut swapped = root_with(2, ROOT, TIMESTAMP, SNAPSHOT);
    swapped.timestamp.keyids.insert(0, signer(SNAPSHOT).keyid);
    assert!(check_keys_changed(&more, &swapped));
    // The same key under another id is no change.
    let mut renamed = root_with(2, ROOT, TIMESTAMP, SNAPSHOT);
    renamed.keys[3].keyid = vec![0xaa];
    renamed.timestamp.keyids = vec![vec![0xaa]];
    assert!(!check_keys_changed(&plain, &renamed));
    // The same id for another key is a change.
    let mut replaced = root_with(2, ROOT, TIMESTAMP, SNAPSHOT);
    replaced.keys[3].key = entry(&signer(OTHER)).key;
    assert!(check_keys_changed(&plain, &replaced));
}

#[test]
fn timestamp_must_be_signed_and_not_older() {
    let root = root(1);
    assert_eq!(check_timestamp(&root, &timestamp(5, TIMESTAMP), &None), Ok(()));
    assert_eq!(
        check_timestamp(&root, &timestamp(5, OTHER), &None),
        Err(Error::VerifyMetadata { role: RoleType::Timestamp })
    );
    let stored = |version| Some(timestamp(version, TIMESTAMP));
    assert_eq!(check_timestamp(&root, &timestamp(5, TIMESTAMP), &stored(4)), Ok(()));
    assert_eq!(check_timestamp(&root, &timestamp(5, TIMESTAMP), &stored(5)), Ok(()));
    assert_eq!(
        check_timestamp(&root, &timestamp(5, TIMESTAMP), &stored(6)),
        Err(Error::OlderMetadata {
            role: RoleType::Timestamp,
            current_version: 6,
            new_version: 5
        })
    );
    // A stored timestamp that another key signed does not count.
    let foreign = Some(timestamp(6, OTHER));
    assert_eq!(check_timestamp(&root, &timestamp(5, TIMESTAMP), &foreign), Ok(()));
}

#[test]
fn snapshot_must_match_the_timestamp_and_be_signed() {
    let root = root(1);
    let listed = |version| TimestampMeta {
        length: 100,
        sha256: vec![0; 32],
        version,
    };
    let fetched = snapshot(3, SNAPSHOT, &[("targets.json", 1)]);
    assert_eq!(check_snapshot(&root, &listed(3), &fetched, &None), Ok(()));
    assert_eq!(
        check_snapshot(&root, &listed(4), &fetched, &None),
        Err(Error::VersionMismatch {
            role: RoleType::Snapshot,
            fetched: 3,
            expected: 4
        })
    );
    let forged = snapshot(3, OTHER, &[("targets.json", 1)]);
    assert_eq!(
        check_snapshot(&root, &listed(3), &forged, &None),
        Err(Error::VerifyMetadata { role: RoleType::Snapshot })
    );
    // The version is looked at before the signatures.
    assert_eq!(
        check_snapshot(&root, &listed(2), &forged, &None),
        Err(Error::VersionMismatch {
            role: RoleType::Snapshot,
            fetched: 3,
            expected: 2
        })
    );
    let stored = Some(snapshot(4, SNAPSHOT, &[]));
    assert_eq!(
        check_snapshot(&root, &listed(3), &fetched, &stored),
        Err(Error::OlderMetadata {
            role: RoleType::Snapshot,
            current_version: 4,
            new_version: 3
        })
    );
    let foreign = Some(snapshot(4, OTHER, &[]));
    assert_eq!(check_snapshot(&root, &listed(3), &fetched, &foreign), Ok(()));
}

#[test]
fn snapshot_rollback_rules() {
    let s = |version, files: &[(&str, u64)]| snapshot(version, SNAPSHOT, files).signed;
    let full = [("targets.json", 5), ("role1.json", 2), ("role2.json", 2)];
    assert_eq!(check_snapshot_rollback(&s(1, &full), &s(1, &full)), Ok(()));
    assert_eq!(check_snapshot_rollback(&s(1, &full), &s(2, &full)), Ok(()));
    assert_eq!(check_snapshot_rollback(&s(1, &[]), &s(1, &full)), Ok(()));
    assert_eq!(
        check_snapshot_rollback(&s(2, &full), &s(1, &full)),
        Err(Error::OlderMetadata {
            role: RoleType::Snapshot,
            current_version: 2,
            new_version: 1
        })
    );
    // The version of `targets.json` must not go back.
    let older = [("targets.json", 4), ("role1.json", 2), ("role2.json", 2)];
    assert_eq!(
        check_snapshot_rollback(&s(1, &full), &s(2, &older)),
        Err(Error::OlderMetadata {
            role: RoleType::Targets,
            current_version: 5,
            new_version: 4
        })
    );
    assert_eq!(check_snapshot_rollback(&s(1, &older), &s(2, &full)), Ok(()));
    // What was listed must stay listed.
    let without_targets = [("role1.json", 2), ("role2.json", 2)];
    assert_eq!(
        check_snapshot_rollback(&s(1, &full), &s(2, &without_targets)),
        Err(Error::MetaMissing {
            file: "targets.json".to_string(),
            role: RoleType::Snapshot
        })
    );
    let without_roles = [("targets.json", 5)];
    assert_eq!(
        check_snapshot_rollback(&s(1, &full), &s(2, &without_roles)),
        Err(Error::MetaMissing {
            file: "role1.json".to_string(),
            role: RoleType::Snapshot
        })
    );
    let without_role2 = [("role1.json", 1), ("targets.json", 5)];
    assert_eq!(
        check_snapshot_rollback(&s(1, &full), &s(2, &without_role2)),
        Err(Error::MetaMissing {
            file: "role2.json".to_string(),
            role: RoleType::Snapshot
        })
    );
    // The version of a delegated role's file may go back.
    let role_back = [("targets.json", 5), ("role1.json", 1), ("role2.json", 2)];
    assert_eq!(check_snapshot_rollback(&s(1, &full), &s(2, &role_back)), Ok(()));
    assert_eq!(check_snapshot_rollback(&s(1, &without_targets), &s(2, &full)), Ok(()));
}

#[test]
fn targets_must_match_the_snapshot_and_be_signed() {
    let root = root(1);
    assert_eq!(check_targets(&root, &meta(2), &targets(2, TARGETS), &None), Ok(()));
    assert_eq!(
        check_targets(&root, &meta(3), &targets(2, TARGETS), &None),
        Err(Error::VersionMismatch {
            role: RoleType::Targets,
            fetched: 2,
            expected: 3
        })
    );
    assert_eq!(
        check_targets(&root, &meta(2), &targets(2, SNAPSHOT), &None),
        Err(Error::VerifyMetadata { role: RoleType::Targets })
    );
    assert_eq!(
        check_targets(&root, &meta(2), &targets(2, TARGETS), &Some(targets(3, TARGETS))),
        Err(Error::OlderMetadata {
            role: RoleType::Targets,
            current_version: 3,
            new_version: 2
        })
    );
    assert_eq!(
        check_targets(&root, &meta(2), &targets(2, TARGETS), &Some(targets(2, TARGETS))),
        Ok(())
    );
    assert_eq!(
        check_targets(&root, &meta(2), &targets(2, TARGETS), &Some(targets(3, OTHER))),
        Ok(())
    );
}

#[test]
fn delegated_role_is_checked_against_the_role_above() {
    let key = signer(OTHER);
    let parent = Delegations {
        keys: vec![entry(&key)],
        roles: vec![DelegatedRole {
            name: "role1".to_string(),
            keyids: vec![key.keyid.clone()],
            threshold: 1,
            paths: Vec::new(),
            terminating: false,
            targets: None,
        }],
    };
    assert_eq!(
        check_delegated_role(&parent, "role1", &meta(2), &targets(2, OTHER)),
        Ok(())
    );
    assert_eq!(
        check_delegated_role(&parent, "role1", &meta(2), &targets(2, TARGETS)),
        Err(Error::VerifyMetadata { role: RoleType::Targets })
    );
    assert_eq!(
        check_delegated_role(&parent, "role2", &meta(2), &targets(2, OTHER)),
        Err(Error::VerifyMetadata { role: RoleType::Targets })
    );
    assert_eq!(
        check_delegated_role(&parent, "role1", &meta(3), &targets(2, OTHER)),
        Err(Error::VersionMismatch {
            role: RoleType::Targets,
            fetched: 2,
            expected: 3
        })
    );
    // The signatures are looked at before the version.
    assert_eq!(
        check_delegated_role(&parent, "role1", &meta(3), &targets(2, TARGETS)),
        Err(Error::VerifyMetadata { role: RoleType::Targets })
    );
}

#[test]
fn earliest_expiration_is_the_minimum() {
    let t = |secs| UtcTime::new(secs, 0);
    assert_eq!(
        earliest_expiration(t(40), t(10), t(20), t(30)),
        (t(10), RoleType::Timestamp)
    );
    assert_eq!(
        earliest_expiration(t(5), t(10), t(20), t(30)),
        (t(5), RoleType::Root)
    );
    assert_eq!(
        earliest_expiration(t(50), t(40), t(20), t(30)),
        (t(20), RoleType::Snapshot)
    );
    assert_eq!(
        earliest_expiration(t(50), t(40), t(30), t(-7)),
        (t(-7), RoleType::Targets)
    );
    // Nanoseconds decide between instants of one second.
    assert_eq!(
        earliest_expiration(
            UtcTime::new(9, 300),
            UtcTime::new(9, 200),
            UtcTime::new(9, 100),
            UtcTime::new(9, 101)
        ),
        (UtcTime::new(9, 100), RoleType::Snapshot)
    );
}

#[test]
fn earliest_expiration_names_the_first_of_equals() {
    let t = |secs| UtcTime::new(secs, 0);
    assert_eq!(
        earliest_expiration(t(1), t(1), t(1), t(1)),
        (t(1), RoleType::Root)
    );
    assert_eq!(
        earliest_expiration(t(2), t(1), t(1), t(1)),
        (t(1), RoleType::Timestamp)
    );
    assert_eq!(
        earliest_expiration(t(2), t(2), t(1), t(1)),
        (t(1), RoleType::Snapshot)
    );
    assert_eq!(
        earliest_expiration(t(1), t(2), t(3), t(1)),
        (t(1), RoleType::Root)
    );
    assert_eq!(
        earliest_expiration(t(3), t(1), t(2), t(1)),
        (t(1), RoleType::Timestamp)
    );
}

#[test]
fn targets_size_limit_prefers_the_listed_length() {
    let listed = SnapshotMeta {
        length: Some(77),
        sha256: None,
        version: 1,
    };
    assert_eq!(targets_size_limit(&listed, 1000), (77, "snapshot.json"));
    assert_eq!(
        targets_size_limit(&meta(1), 1000),
        (1000, "max_targets_size parameter")
    );
}

#[test]
fn earliest_expiration_agrees_with_the_first_minimum_of_a_list() {
    let instants: Vec<UtcTime> = [(0, 0), (0, 1), (1, 0), (-1, 999_999_999)]
        .iter()
        .map(|(secs, nanos)| UtcTime::new(*secs, *nanos))
        .collect();
    for root in &instants {
        for timestamp in &instants {
            for snapshot in &instants {
                for targets in &instants {
                    let list = [
                        (*root, RoleType::Root),
                        (*timestamp, RoleType::Timestamp),
                        (*snapshot, RoleType::Snapshot),
                        (*targets, RoleType::Targets),
                    ];
                    let expected = list.iter().min_by_key(|entry| (entry.0.secs, entry.0.nanos));
                    assert_eq!(
                        earliest_expiration(*root, *timestamp, *snapshot, *targets),
                        *expected.unwrap()
                    );
                }
            }
        }
    }
}
