use tough::datastore::{
    Datastore, LATEST_KNOWN_TIME_FILE, SNAPSHOT_FILE, TARGETS_FILE, TIMESTAMP_FILE,
};

#[test]
fn fixed_names() {
    assert_eq!(LATEST_KNOWN_TIME_FILE, "latest_known_time.json");
    assert_eq!(TIMESTAMP_FILE, "timestamp.json");
    assert_eq!(SNAPSHOT_FILE, "snapshot.json");
    assert_eq!(TARGETS_FILE, "targets.json");
}

#[test]
fn new_datastore_is_empty() {
    let store = Datastore::new();
    assert!(store.names().is_empty());
    assert_eq!(store.get("timestamp.json"), None);
    assert!(!store.contains("timestamp.json"));
}

#[test]
fn create_replaces_the_whole_file() {
    let mut store = Datastore::new();
    store.create("timestamp.json", vec![1, 2, 3]);
    store.create("snapshot.json", vec![4]);
    assert_eq!(store.get("timestamp.json"), Some(vec![1, 2, 3]));
    store.create("timestamp.json", vec![9]);
    assert_eq!(store.get("timestamp.json"), Some(vec![9]));
    assert_eq!(store.get("snapshot.json"), Some(vec![4]));
    let mut names = store.names();
    names.sort();
    assert_eq!(names, ["snapshot.json", "timestamp.json"]);
}

#[test]
fn remove_of_a_missing_file_is_no_failure() {
    let mut store = Datastore::new();
    store.remove("timestamp.json");
    store.create("timestamp.json", vec![1]);
    store.create("targets.json", vec![2]);
    store.remove("timestamp.json");
    store.remove("timestamp.json");
    assert!(!store.contains("timestamp.json"));
    assert_eq!(store.get("targets.json"), Some(vec![2]));
    assert_eq!(store.names(), ["targets.json"]);
    store.create("timestamp.json", vec![3]);
    assert_eq!(store.get("timestamp.json"), Some(vec![3]));
}

#[test]
fn names_are_told_apart_by_every_character() {
    let mut store = Datastore::new();
    store.create("role.json", vec![1]);
    store.create("role.jso", vec![2]);
    store.create("Role.json", vec![3]);
    store.create("", vec![4]);
    assert_eq!(store.get("role.json"), Some(vec![1]));
    assert_eq!(store.get("role.jso"), Some(vec![2]));
    assert_eq!(store.get("Role.json"), Some(vec![3]));
    assert_eq!(store.get(""), Some(vec![4]));
    assert_eq!(store.names().len(), 4);
}
