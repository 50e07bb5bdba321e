use tough::schema::{
    find_named, DelegatedRole, Delegations, Role, Root, Signed, Snapshot, Target, Targets,
    Timestamp,
};
use tough::{RoleType, UtcTime};

fn target(length: u64) -> Target {
    Target {
        length,
        sha256: vec![length as u8; 32],
    }
}

fn targets(own: &[(&str, u64)], roles: Vec<DelegatedRole>) -> Targets {
    Targets {
        version: 1,
        expires: UtcTime::new(0, 0),
        targets: own
            .iter()
            .map(|(name, length)| (name.to_string(), target(*length)))
            .collect(),
        delegations: if roles.is_empty() {
            None
        } else {
            Some(Delegations {
                keys: Vec::new(),
                roles,
            })
        },
    }
}

fn role(name: &str, loaded: Option<Targets>) -> DelegatedRole {
    DelegatedRole {
        name: name.to_string(),
        keyids: Vec::new(),
        threshold: 1,
        paths: Vec::new(),
        terminating: false,
        targets: loaded.map(|signed| Signed {
            signed,
            signatures: Vec::new(),
            message: Vec::new(),
        }),
    }
}

/// targets: a, b; then `left` (c, a) with `deep` (d, e) below it; then
/// `empty` without metadata; then `right` (e, f).
fn tree() -> Targets {
    let deep = targets(&[("d", 4), ("e", 5)], Vec::new());
    let left = targets(&[("c", 3), ("a", 30)], vec![role("deep", Some(deep))]);
    let right = targets(&[("e", 50), ("f", 6)], vec![role("deep", None)]);
    targets(
        &[("a", 1), ("b", 2)],
        vec![
            role("left", Some(left)),
            role("empty", None),
            role("right", Some(right)),
        ],
    )
}

#[test]
fn find_named_takes_the_first_entry_of_a_name() {
    let entries = vec![
        ("one".to_string(), 1),
        ("two".to_string(), 2),
        ("one".to_string(), 3),
    ];
    assert_eq!(find_named(&entries, "one"), Some(&1));
    assert_eq!(find_named(&entries, "two"), Some(&2));
    assert_eq!(find_named(&entries, "three"), None);
    assert_eq!(find_named(&Vec::<(String, u8)>::new(), "one"), None);
}

#[test]
fn find_target_looks_at_each_role_before_the_next() {
    let tree = tree();
    assert_eq!(tree.find_target("a").unwrap().length, 1);
    assert_eq!(tree.find_target("b").unwrap().length, 2);
    assert_eq!(tree.find_target("c").unwrap().length, 3);
    assert_eq!(tree.find_target("d").unwrap().length, 4);
    // `deep` below `left` comes before `right`.
    assert_eq!(tree.find_target("e").unwrap().length, 5);
    assert_eq!(tree.find_target("f").unwrap().length, 6);
    assert!(tree.find_target("g").is_none());
    assert!(tree.find_target("").is_none());
}

#[test]
fn delegated_role_looks_at_each_role_before_the_roles_below() {
    let tree = tree();
    assert_eq!(tree.delegated_role("left").unwrap().name, "left");
    assert!(tree.delegated_role("empty").unwrap().targets.is_none());
    assert_eq!(tree.delegated_role("right").unwrap().name, "right");
    // The `deep` below `left` is found, not the one below `right`.
    assert!(tree.delegated_role("deep").unwrap().targets.is_some());
    assert!(tree.delegated_role("targets").is_none());
}

#[test]
fn targets_iter_lists_all_targets_in_order() {
    let tree = tree();
    let listed: Vec<(&str, u64)> = tree
        .targets_iter()
        .iter()
        .map(|entry| (entry.0.as_str(), entry.1.length))
        .collect();
    assert_eq!(
        listed,
        [
            ("a", 1),
            ("b", 2),
            ("c", 3),
            ("a", 30),
            ("d", 4),
            ("e", 5),
            ("e", 50),
            ("f", 6)
        ]
    );
    assert!(targets(&[], Vec::new()).targets_iter().is_empty());
}

#[test]
fn roles_tell_their_kind_version_and_expiration() {
    assert_eq!(<Root as Role>::role_type(), RoleType::Root);
    assert_eq!(<Timestamp as Role>::role_type(), RoleType::Timestamp);
    assert_eq!(<Snapshot as Role>::role_type(), RoleType::Snapshot);
    assert_eq!(<Targets as Role>::role_type(), RoleType::Targets);
    let snapshot = Snapshot {
        version: 12,
        expires: UtcTime::new(34, 56),
        meta: Vec::new(),
    };
    assert_eq!(snapshot.version(), 12);
    assert_eq!(snapshot.expires(), UtcTime::new(34, 56));
    let tree = tree();
    assert_eq!(Role::version(&tree), 1);
    assert_eq!(Role::expires(&tree), UtcTime::new(0, 0));
}
