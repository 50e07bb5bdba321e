use ring::signature::{Ed25519KeyPair, KeyPair};
use tough::schema::{DelegatedRole, Delegations, RoleKeys, Root, Signed, Targets, Timestamp};
use tough::signature::{lookup_key, verify_threshold};
use tough::{Key, KeyEntry, RoleType, Signature, SignatureScheme, UtcTime};

struct Signer {
    keyid: Vec<u8>,
    pair: Ed25519KeyPair,
}

fn signer(seed: u8) -> Signer {
    Signer {
        keyid: vec![seed; 3],
        pair: Ed25519KeyPair::from_seed_unchecked(&[seed; 32]).unwrap(),
    }
}

fn entry(signer: &Signer) -> KeyEntry {
    KeyEntry {
        keyid: signer.keyid.clone(),
        key: Key {
            scheme: SignatureScheme::Ed25519,
            public: signer.pair.public_key().as_ref().to_vec(),
        },
    }
}

fn sign(signer: &Signer, message: &[u8]) -> Signature {
    Signature {
        keyid: signer.keyid.clone(),
        sig: signer.pair.sign(message).as_ref().to_vec(),
    }
}

const MESSAGE: &[u8] = b"the canonical form of some metadata";

#[test]
fn one_valid_signature_meets_a_threshold_of_one() {
    let a = signer(1);
    let keys = vec![entry(&a)];
    let ids = vec![a.keyid.clone()];
    assert!(verify_threshold(&keys, &ids, 1, &vec![sign(&a, MESSAGE)], MESSAGE));
    // Not for another message, and not with a damaged signature.
    assert!(!verify_threshold(&keys, &ids, 1, &vec![sign(&a, MESSAGE)], b"another message"));
    let mut damaged = sign(&a, MESSAGE);
    damaged.sig[5] ^= 0x10;
    assert!(!verify_threshold(&keys, &ids, 1, &vec![damaged], MESSAGE));
    assert!(!verify_threshold(&keys, &ids, 1, &vec![], MESSAGE));
}

#[test]
fn threshold_counts_different_keys() {
    let (a, b, c) = (signer(1), signer(2), signer(3));
    let keys = vec![entry(&a), entry(&b), entry(&c)];
    let ids = vec![a.keyid.clone(), b.keyid.clone(), c.keyid.clone()];
    let by = |signers: &[&Signer]| -> Vec<Signature> {
        signers.iter().map(|s| sign(s, MESSAGE)).collect()
    };
    assert!(verify_threshold(&keys, &ids, 2, &by(&[&a, &b]), MESSAGE));
    assert!(verify_threshold(&keys, &ids, 2, &by(&[&c, &a]), MESSAGE));
    assert!(verify_threshold(&keys, &ids, 3, &by(&[&c, &a, &b]), MESSAGE));
    assert!(!verify_threshold(&keys, &ids, 2, &by(&[&a]), MESSAGE));
    assert!(!verify_threshold(&keys, &ids, 3, &by(&[&a, &b]), MESSAGE));
    // The same key twice counts once.
    assert!(!verify_threshold(&keys, &ids, 2, &by(&[&a, &a]), MESSAGE));
    // A key id that is listed twice counts once.
    let doubled = vec![a.keyid.clone(), a.keyid.clone()];
    assert!(!verify_threshold(&keys, &doubled, 2, &by(&[&a, &a]), MESSAGE));
    assert!(verify_threshold(&keys, &doubled, 1, &by(&[&a]), MESSAGE));
    // An invalid signature beside a valid one of the same key does no harm.
    let mut mixed = by(&[&a, &b]);
    let mut damaged = sign(&a, MESSAGE);
    damaged.sig[0] ^= 1;
    mixed.insert(0, damaged);
    assert!(verify_threshold(&keys, &ids, 2, &mixed, MESSAGE));
}

#[test]
fn threshold_of_zero_is_never_met() {
    let a = signer(1);
    let keys = vec![entry(&a)];
    let ids = vec![a.keyid.clone()];
    assert!(!verify_threshold(&keys, &ids, 0, &vec![sign(&a, MESSAGE)], MESSAGE));
    assert!(!verify_threshold(&keys, &vec![], 0, &vec![], MESSAGE));
}

#[test]
fn only_keys_of_the_role_count() {
    let (a, b) = (signer(1), signer(2));
    let keys = vec![entry(&a), entry(&b)];
    // `b` is a known key, but not one of the role.
    let ids = vec![a.keyid.clone()];
    assert!(!verify_threshold(&keys, &ids, 1, &vec![sign(&b, MESSAGE)], MESSAGE));
    // `b` is a key of the role, but the key itself is not known.
    let keys = vec![entry(&a)];
    let ids = vec![a.keyid.clone(), b.keyid.clone()];
    assert!(!verify_threshold(&keys, &ids, 1, &vec![sign(&b, MESSAGE)], MESSAGE));
    // A signature of `b` under the id of `a` is checked against the key of `a`.
    let mut disguised = sign(&b, MESSAGE);
    disguised.keyid = a.keyid.clone();
    assert!(!verify_threshold(&keys, &ids, 1, &vec![disguised], MESSAGE));
}

#[test]
fn key_bytes_that_are_no_key_sign_nothing() {
    let a = signer(1);
    let mut broken = entry(&a);
    broken.key.public.truncate(7);
    let ids = vec![a.keyid.clone()];
    assert!(!verify_threshold(&vec![broken], &ids, 1, &vec![sign(&a, MESSAGE)], MESSAGE));
    // An Ed25519 key under another scheme signs nothing either.
    for scheme in [SignatureScheme::RsaPssSha256, SignatureScheme::EcdsaP256Sha256] {
        let mut other = entry(&a);
        other.key.scheme = scheme;
        assert!(!verify_threshold(&vec![other], &ids, 1, &vec![sign(&a, MESSAGE)], MESSAGE));
    }
}

#[test]
fn first_key_of_an_id_is_the_key() {
    let (a, b) = (signer(1), signer(2));
    let mut second = entry(&b);
    second.keyid = a.keyid.clone();
    let keys = vec![entry(&a), second];
    assert_eq!(lookup_key(&keys, &a.keyid), Some(&keys[0].key));
    assert_eq!(lookup_key(&keys, &b.keyid), None);
    let ids = vec![a.keyid.clone()];
    let mut by_b = sign(&b, MESSAGE);
    by_b.keyid = a.keyid.clone();
    assert!(!verify_threshold(&keys, &ids, 1, &vec![by_b], MESSAGE));
    assert!(verify_threshold(&keys, &ids, 1, &vec![sign(&a, MESSAGE)], MESSAGE));
}

fn role_keys(signers: &[&Signer], threshold: u64) -> RoleKeys {
    RoleKeys {
        keyids: signers.iter().map(|s| s.keyid.clone()).collect(),
        threshold,
    }
}

#[test]
fn root_checks_each_role_against_its_own_keys() {
    let (r, s, g, t) = (signer(1), signer(2), signer(3), signer(4));
    let root = Root {
        version: 1,
        expires: UtcTime::new(0, 0),
        consistent_snapshot: false,
        keys: vec![entry(&r), entry(&s), entry(&g), entry(&t)],
        root: role_keys(&[&r], 1),
        snapshot: role_keys(&[&s], 1),
        targets: role_keys(&[&g], 1),
        timestamp: role_keys(&[&t], 1),
    };
    assert_eq!(root.role_keys(RoleType::Root).keyids, vec![r.keyid.clone()]);
    assert_eq!(root.role_keys(RoleType::Timestamp).keyids, vec![t.keyid.clone()]);
    assert_eq!(root.keys(RoleType::Snapshot), vec![&root.keys[1].key]);
    assert_eq!(root.keys(RoleType::Targets), vec![&root.keys[2].key]);

    let timestamp = |signer: &Signer| Signed {
        signed: Timestamp {
            version: 1,
            expires: UtcTime::new(0, 0),
            meta: Vec::new(),
        },
        signatures: vec![sign(signer, MESSAGE)],
        message: MESSAGE.to_vec(),
    };
    assert!(root.verify_role(&timestamp(&t)));
    assert!(!root.verify_role(&timestamp(&s)));
    assert!(!root.verify_role(&timestamp(&r)));
}

#[test]
fn keys_of_a_role_follow_the_order_of_its_ids() {
    let (a, b, c) = (signer(1), signer(2), signer(3));
    let root = Root {
        version: 1,
        expires: UtcTime::new(0, 0),
        consistent_snapshot: false,
        keys: vec![entry(&a), entry(&b)],
        root: role_keys(&[&b, &c, &a], 2),
        snapshot: role_keys(&[], 1),
        targets: role_keys(&[&c], 1),
        timestamp: role_keys(&[&a, &b], 1),
    };
    // `c` is not among the keys and stands for none.
    assert_eq!(root.keys(RoleType::Root), vec![&root.keys[1].key, &root.keys[0].key]);
    assert!(root.keys(RoleType::Snapshot).is_empty());
    assert!(root.keys(RoleType::Targets).is_empty());
    assert_eq!(root.keys(RoleType::Timestamp), vec![&root.keys[0].key, &root.keys[1].key]);
}

#[test]
fn delegations_check_a_role_by_its_name() {
    let (a, b) = (signer(1), signer(2));
    let role = |name: &str, signer: &Signer| DelegatedRole {
        name: name.to_string(),
        keyids: vec![signer.keyid.clone()],
        threshold: 1,
        paths: vec!["*".to_string()],
        terminating: false,
        targets: None,
    };
    let delegations = Delegations {
        keys: vec![entry(&a), entry(&b)],
        roles: vec![role("first", &a), role("second", &b), role("first", &b)],
    };
    let targets = |signer: &Signer| Signed {
        signed: Targets {
            version: 1,
            expires: UtcTime::new(0, 0),
            targets: Vec::new(),
            delegations: None,
        },
        signatures: vec![sign(signer, MESSAGE)],
        message: MESSAGE.to_vec(),
    };
    assert!(delegations.verify_role(&targets(&a), "first"));
    assert!(delegations.verify_role(&targets(&b), "second"));
    assert!(!delegations.verify_role(&targets(&a), "second"));
    // Of two roles of one name the first is asked.
    assert!(!delegations.verify_role(&targets(&b), "first"));
    assert!(!delegations.verify_role(&targets(&a), "third"));
    assert_eq!(delegations.role("second").unwrap().keyids, vec![b.keyid.clone()]);
    assert_eq!(delegations.role("first").unwrap().keyids, vec![a.keyid.clone()]);
    assert!(delegations.role("third").is_none());
}
