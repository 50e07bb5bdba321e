use tough::names::{metadata_path, role_path, root_path, target_path};
use tough::text::{
    bytes_copy, bytes_equal, decimal_string, hex_string, str_ends_with_slash, str_equal,
};

#[test]
fn decimal_string_writes_numbers() {
    assert_eq!(decimal_string(0), "0");
    assert_eq!(decimal_string(7), "7");
    assert_eq!(decimal_string(10), "10");
    assert_eq!(decimal_string(1024), "1024");
    assert_eq!(decimal_string(9_876_543_210), "9876543210");
    assert_eq!(decimal_string(u64::MAX as u128), "18446744073709551615");
    assert_eq!(decimal_string(u64::MAX as u128 + 1), "18446744073709551616");
    assert_eq!(decimal_string(u128::MAX), u128::MAX.to_string());
}

#[test]
fn hex_string_writes_two_digits_for_each_byte() {
    assert_eq!(hex_string(&[]), "");
    assert_eq!(hex_string(&[0]), "00");
    assert_eq!(hex_string(&[0x0f, 0xf0, 0xab, 0x09]), "0ff0ab09");
    assert_eq!(hex_string(&[0x12, 0x34, 0x56, 0x78, 0x9a, 0xbc, 0xde, 0xff]), "123456789abcdeff");
}

#[test]
fn texts_and_bytes_are_compared_by_content() {
    assert!(str_equal("targets.json", "targets.json"));
    assert!(!str_equal("targets.json", "target.json"));
    assert!(str_equal("", ""));
    assert!(bytes_equal(&vec![1, 2, 3], &vec![1, 2, 3]));
    assert!(!bytes_equal(&vec![1, 2, 3], &vec![1, 2]));
    assert!(!bytes_equal(&vec![1, 2, 3], &vec![1, 2, 4]));
    assert_eq!(bytes_copy(&[9, 8, 7]), [9, 8, 7]);
    assert_eq!(bytes_copy(&[]), Vec::<u8>::new());
}

#[test]
fn trailing_slash_is_found() {
    assert!(str_ends_with_slash("https://example.org/"));
    assert!(str_ends_with_slash("/"));
    assert!(!str_ends_with_slash("https://example.org"));
    assert!(!str_ends_with_slash(""));
    assert!(!str_ends_with_slash("a/b"));
    assert!(str_ends_with_slash("\u{e9}t\u{e9}/"));
}

#[test]
fn root_files_are_named_by_version() {
    assert_eq!(root_path(1), "1.root.json");
    assert_eq!(root_path(42), "42.root.json");
    assert_eq!(root_path(u64::MAX as u128 + 1), "18446744073709551616.root.json");
}

#[test]
fn metadata_files_are_named_by_version_under_consistent_snapshots() {
    assert_eq!(metadata_path(false, 3, "snapshot.json"), "snapshot.json");
    assert_eq!(metadata_path(true, 3, "snapshot.json"), "3.snapshot.json");
    assert_eq!(metadata_path(false, 17, "targets.json"), "targets.json");
    assert_eq!(metadata_path(true, 17, "targets.json"), "17.targets.json");
    assert_eq!(role_path("role1"), "role1.json");
    assert_eq!(metadata_path(true, 2, &role_path("role1")), "2.role1.json");
    assert_eq!(metadata_path(false, 2, &role_path("role1")), "role1.json");
}

#[test]
fn target_files_are_named_by_digest_under_consistent_snapshots() {
    let digest = [0xc1, 0x4a, 0xeb, 0x4a];
    assert_eq!(target_path(false, &digest, "foobar.tar.gz"), "foobar.tar.gz");
    assert_eq!(target_path(true, &digest, "foobar.tar.gz"), "c14aeb4a.foobar.tar.gz");
    assert_eq!(target_path(true, &digest, "dir/file.txt"), "c14aeb4a.dir/file.txt");
}
