//! The names under which a repository serves its files.

use crate::text::{decimal, decimal_string, hex, hex_string};
use vstd::prelude::*;
use vstd::string::*;

verus! {

/// The name of the root metadata file of a version: the version in
/// decimal, then `.root.json`.
pub open spec fn root_file_name(version: nat) -> Seq<char> {
    decimal(version) + ".root.json"@
}

/// The name of the metadata file of a delegated role: the role's name,
/// then `.json`.
pub open spec fn role_file_name(role: Seq<char>) -> Seq<char> {
    role + ".json"@
}

/// The name under which a metadata file is fetched. A repository with
/// consistent snapshots puts the version in decimal and a dot before the
/// file's name; another serves the file under its name.
pub open spec fn metadata_file_name(
    consistent_snapshot: bool,
    version: nat,
    file: Seq<char>,
) -> Seq<char> {
    if consistent_snapshot {
        decimal(version) + "."@ + file
    } else {
        file
    }
}

/// The name under which a target is fetched. A repository with consistent
/// snapshots puts the target's SHA-256 digest in hexadecimal and a dot
/// before the target's name; another serves the target under its name.
pub open spec fn target_file_name(
    consistent_snapshot: bool,
    sha256: Seq<u8>,
    target: Seq<char>,
) -> Seq<char> {
    if consistent_snapshot {
        hex(sha256) + "."@ + target
    } else {
        target
    }
}

/// Writes the name of the root metadata file of a version.
pub fn root_path(version: u128) -> (path: String)
    ensures
        path@ == root_file_name(version as nat),
{
    let mut path = decimal_string(version);
    path.append(".root.json");
    path
}

/// Writes the name of the metadata file of a delegated role.
pub fn role_path(role: &str) -> (path: String)
    ensures
        path@ == role_file_name(role@),
{
    let mut path = String::from_str(role);
    path.append(".json");
    path
}

/// Writes the name under which a metadata file is fetched.
pub fn metadata_path(consistent_snapshot: bool, version: u64, file: &str) -> (path: String)
    ensures
        path@ == metadata_file_name(consistent_snapshot, version as nat, file@),
{
    if consistent_snapshot {
        let mut path = decimal_string(version as u128);
        path.append(".");
        path.append(file);
        path
    } else {
        String::from_str(file)
    }
}

/// Writes the name under which a target is fetched.
pub fn target_path(consistent_snapshot: bool, sha256: &[u8], target: &str) -> (path: String)
    ensures
        path@ == target_file_name(consistent_snapshot, sha256@, target@),
{
    if consistent_snapshot {
        let mut path = hex_string(sha256);
        path.append(".");
        path.append(target);
        path
    } else {
        String::from_str(target)
    }
}

} // verus!
